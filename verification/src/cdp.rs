//! The DevTools protocol: picking the session's own tab, and the requests and answers by
//! which the daemon drives it.
use crate::json;
use crate::json::{Json, JsonView};
use crate::session;
use crate::text;
use crate::text::{
    contains, joined, joined3, number_text, owned, same, split_once, starts_with, trim,
};
use vstd::prelude::*;

verus! {

/// A tab as the browser lists it. One without an identifier can only be told by its address.
pub struct PageTarget {
    pub id: Option<String>,
    pub url: String,
    pub websocket_path: String,
}

/// A tab as the browser lists it.
#[verifier::ext_equal]
pub struct TargetView {
    pub id: Option<Seq<char>>,
    pub url: Seq<char>,
    pub path: Seq<char>,
}

impl View for PageTarget {
    type V = TargetView;

    open spec fn view(&self) -> TargetView {
        TargetView { id: text::opt_text(self.id), url: self.url@, path: self.websocket_path@ }
    }
}

/// How a session's tab is known: by its target, which stays the same as long as the tab
/// lives, or else by its address.
pub struct PageRef {
    pub target_id: Option<String>,
    pub url: Option<String>,
}

impl PageRef {
    /// A reference to a session's tab.
    pub fn new(target_id: Option<String>, url: Option<String>) -> (r: PageRef)
        ensures
            r.target_id == target_id,
            r.url == url,
    {
        PageRef { target_id, url }
    }
}

/// The path of a WebSocket address.
pub open spec fn socket_path(address: Seq<char>) -> Option<Seq<char>> {
    match text::cut(address, "://"@) {
        Some((_, rest)) => match text::cut(rest, "/"@) {
            Some((_, path)) => Some("/"@ + path),
            None => None,
        },
        None => None,
    }
}

/// A tab in the browser's list, if the entry is one and says where to reach it.
pub open spec fn target_of(item: JsonView) -> Option<TargetView> {
    if json::text_field(item, "type"@) != Some("page"@) {
        None
    } else {
        match json::text_field(item, "url"@) {
            None => None,
            Some(url) => match json::text_field(item, "webSocketDebuggerUrl"@) {
                None => None,
                Some(address) => match socket_path(address) {
                    None => None,
                    Some(path) => Some(
                        TargetView { id: json::text_field(item, "id"@), url, path },
                    ),
                },
            },
        }
    }
}

/// The tabs in the browser's list.
pub open spec fn targets_of(items: Seq<JsonView>) -> Seq<TargetView> {
    items.filter_map(|item: JsonView| target_of(item))
}

/// The tabs that the browser's answer lists, or why it cannot be used.
pub open spec fn targets_in(answer: Result<JsonView, Seq<char>>) -> Result<
    Seq<TargetView>,
    Seq<char>,
> {
    match answer {
        Err(error) => Err("failed to parse /json response: "@ + error),
        Ok(v) => match json::items_of(v) {
            None => Err("/json response is not an array"@),
            Some(items) => Ok(targets_of(items)),
        },
    }
}

/// A list of tabs.
pub open spec fn target_views(targets: Seq<PageTarget>) -> Seq<TargetView> {
    targets.map_values(|t: PageTarget| t@)
}

fn websocket_path_of(address: &str) -> (r: Option<String>)
    ensures
        text::opt_text(r) == socket_path(address@),
{
    match split_once(address, "://") {
        Some((_, rest)) => match split_once(rest.as_str(), "/") {
            Some((_, path)) => Some(joined("/", path.as_str())),
            None => None,
        },
        None => None,
    }
}

fn page_target(item: &Json) -> (r: Option<PageTarget>)
    ensures
        match r {
            Some(t) => target_of(item@) == Some(t@),
            None => target_of(item@) is None,
        },
{
    let is_page = match item.get_str("type") {
        Some(kind) => same(kind, "page"),
        None => false,
    };
    if !is_page {
        return None;
    }
    match item.get_str("url") {
        None => None,
        Some(url) => match item.get_str("webSocketDebuggerUrl") {
            None => None,
            Some(address) => match websocket_path_of(address) {
                None => None,
                Some(websocket_path) => Some(
                    PageTarget {
                        id: owned(item.get_str("id")),
                        url: url.to_string(),
                        websocket_path,
                    },
                ),
            },
        },
    }
}

/// The tabs that a parsed answer of the browser lists.
pub fn page_targets(value: &Json) -> (r: Result<Vec<PageTarget>, String>)
    ensures
        match r {
            Ok(targets) => targets_in(Ok::<JsonView, Seq<char>>(value@)) == Ok::<_, Seq<char>>(
                target_views(targets@),
            ),
            Err(message) => targets_in(Ok::<JsonView, Seq<char>>(value@)) == Err::<
                Seq<TargetView>,
                _,
            >(message@),
        },
{
    match value.as_array() {
        None => Err("/json response is not an array".to_string()),
        Some(items) => {
            let ghost all = json::trees(items@);
            proof {
                json::lemma_trees_index(items@);
                assert(all.take(0) =~= Seq::empty());
            }
            let mut out: Vec<PageTarget> = Vec::new();
            assert(target_views(out@) =~= Seq::empty());
            let mut i: usize = 0;
            while i < items.len()
                invariant
                    i <= items.len(),
                    all == json::trees(items@),
                    all.len() == items.len(),
                    forall|j: int|
                        0 <= j < all.len() ==> #[trigger] all[j] == json::tree(items@[j]),
                    target_views(out@) == targets_of(all.take(i as int)),
                decreases items.len() - i,
            {
                assert(all.take(i + 1).drop_last() =~= all.take(i as int));
                assert(all.take(i + 1).last() == json::tree(items@[i as int]));
                let ghost before = out@;
                match page_target(&items[i]) {
                    Some(t) => {
                        out.push(t);
                        assert(target_views(out@) =~= target_views(before).push(t@));
                    },
                    None => {},
                }
                assert(target_views(out@) =~= targets_of(all.take(i + 1)));
                i = i + 1;
            }
            assert(all.take(i as int) =~= all);
            Ok(out)
        },
    }
}

/// The tabs that the browser's answer lists.
pub fn list_page_targets(body: &str) -> (r: Result<Vec<PageTarget>, String>)
    ensures
        match r {
            Ok(targets) => targets_in(json::json_parse(body@)) == Ok::<_, Seq<char>>(
                target_views(targets@),
            ),
            Err(message) => targets_in(json::json_parse(body@)) == Err::<Seq<TargetView>, _>(
                message@,
            ),
        },
{
    match Json::parse(body) {
        Ok(value) => page_targets(&value),
        Err(error) => Err(joined("failed to parse /json response: ", error.as_str())),
    }
}

/// The first tab with this target.
pub open spec fn with_id(targets: Seq<TargetView>, id: Seq<char>) -> Option<TargetView>
    decreases targets.len(),
{
    if targets.len() == 0 {
        None
    } else if targets[0].id == Some(id) {
        Some(targets[0])
    } else {
        with_id(targets.skip(1), id)
    }
}

/// The tabs at this address.
pub open spec fn at_url(targets: Seq<TargetView>, url: Seq<char>) -> Seq<TargetView>
    decreases targets.len(),
{
    if targets.len() == 0 {
        Seq::empty()
    } else if targets.last().url == url {
        at_url(targets.drop_last(), url).push(targets.last())
    } else {
        at_url(targets.drop_last(), url)
    }
}

/// The session's own tab, or why it cannot be told. No other tab ever takes its place.
pub open spec fn own_target(
    targets: Seq<TargetView>,
    id: Option<Seq<char>>,
    url: Option<Seq<char>>,
) -> Result<TargetView, Seq<char>> {
    match id {
        Some(t) => match with_id(targets, t) {
            Some(target) => Ok(target),
            None => Err("session page target "@ + t + " is gone; create a new session"@),
        },
        None => match url {
            None => Err("session has no page target"@),
            Some(u) => {
                let found = at_url(targets, u);
                if found.len() == 0 {
                    Err("no page target for url "@ + u)
                } else if found.len() > 1 {
                    Err(
                        "url "@ + u
                            + " matches multiple page targets; cannot pick the session tab"@,
                    )
                } else {
                    Ok(found[0])
                }
            },
        },
    }
}

/// Where the first tab with this target is.
fn find_id(targets: &Vec<PageTarget>, id: &str) -> (r: Option<usize>)
    ensures
        match r {
            Some(i) => i < targets.len() && with_id(target_views(targets@), id@) == Some(
                targets[i as int]@,
            ),
            None => with_id(target_views(targets@), id@) is None,
        },
{
    let ghost all = target_views(targets@);
    assert(all.skip(0) =~= all);
    let mut i: usize = 0;
    while i < targets.len()
        invariant
            i <= targets.len(),
            all == target_views(targets@),
            with_id(all, id@) == with_id(all.skip(i as int), id@),
        decreases targets.len() - i,
    {
        assert(all.skip(i as int)[0] == targets[i as int]@);
        assert(all.skip(i as int).skip(1) =~= all.skip(i + 1));
        let is_wanted = match &targets[i].id {
            Some(known) => same(known.as_str(), id),
            None => false,
        };
        if is_wanted {
            return Some(i);
        }
        i = i + 1;
    }
    assert(all.skip(i as int).len() == 0);
    None
}

/// The first tab at this address, and how many there are.
fn find_url(targets: &Vec<PageTarget>, url: &str) -> (r: (usize, usize))
    ensures
        r.1 == at_url(target_views(targets@), url@).len(),
        r.1 > 0 ==> r.0 < targets.len() && at_url(target_views(targets@), url@)[0]
            == targets[r.0 as int]@,
{
    let ghost all = target_views(targets@);
    assert(all.take(0) =~= Seq::empty());
    let mut first: usize = 0;
    let mut count: usize = 0;
    let mut i: usize = 0;
    while i < targets.len()
        invariant
            i <= targets.len(),
            count <= i,
            all == target_views(targets@),
            count == at_url(all.take(i as int), url@).len(),
            count > 0 ==> first < targets.len() && at_url(all.take(i as int), url@)[0]
                == targets[first as int]@,
        decreases targets.len() - i,
    {
        assert(all.take(i + 1).drop_last() =~= all.take(i as int));
        assert(all.take(i + 1).last() == targets[i as int]@);
        if same(targets[i].url.as_str(), url) {
            if count == 0 {
                first = i;
            }
            count = count + 1;
        }
        i = i + 1;
    }
    assert(all.take(i as int) =~= all);
    (first, count)
}

/// A copy of a tab's description.
fn copy_target(t: &PageTarget) -> (r: PageTarget)
    ensures
        r@ == t@,
{
    PageTarget {
        id: t.id.clone(),
        url: t.url.clone(),
        websocket_path: t.websocket_path.clone(),
    }
}

/// Picks the session's own tab to connect to. No other tab ever takes its place.
pub fn connect_page_client(targets: &Vec<PageTarget>, page: &PageRef) -> (r: Result<
    PageTarget,
    String,
>)
    ensures
        match r {
            Ok(t) => own_target(
                target_views(targets@),
                text::opt_text(page.target_id),
                text::opt_text(page.url),
            ) == Ok::<_, Seq<char>>(t@),
            Err(message) => own_target(
                target_views(targets@),
                text::opt_text(page.target_id),
                text::opt_text(page.url),
            ) == Err::<TargetView, _>(message@),
        },
{
    match &page.target_id {
        Some(target_id) => match find_id(targets, target_id.as_str()) {
            Some(i) => Ok(copy_target(&targets[i])),
            None => Err(
                joined3(
                    "session page target ",
                    target_id.as_str(),
                    " is gone; create a new session",
                ),
            ),
        },
        None => match &page.url {
            None => Err("session has no page target".to_string()),
            Some(url) => {
                let (first, count) = find_url(targets, url.as_str());
                if count == 0 {
                    Err(joined("no page target for url ", url.as_str()))
                } else if count > 1 {
                    Err(
                        joined3(
                            "url ",
                            url.as_str(),
                            " matches multiple page targets; cannot pick the session tab",
                        ),
                    )
                } else {
                    Ok(copy_target(&targets[first]))
                }
            },
        },
    }
}

/// The target of the tab at an address, if it is the only one there.
pub open spec fn unique_target(targets: Seq<TargetView>, url: Seq<char>) -> Option<Seq<char>> {
    let found = at_url(targets, url);
    if found.len() == 1 {
        found[0].id
    } else {
        None
    }
}

/// The target of the tab at an address, if it is the only one there.
pub fn resolve_unique_target_id(targets: &Vec<PageTarget>, url: &str) -> (r: Option<String>)
    ensures
        text::opt_text(r) == unique_target(target_views(targets@), url@),
{
    let (first, count) = find_url(targets, url);
    if count == 1 {
        targets[first].id.clone()
    } else {
        None
    }
}

/// The targets of some tabs, as far as they are known.
pub open spec fn ids_of(targets: Seq<TargetView>) -> Seq<Seq<char>> {
    targets.filter_map(|t: TargetView| t.id)
}

/// The targets of some tabs, as far as they are known.
pub fn page_target_ids(targets: &Vec<PageTarget>) -> (r: Vec<String>)
    ensures
        text::texts(r@) == ids_of(target_views(targets@)),
{
    let ghost all = target_views(targets@);
    assert(all.take(0) =~= Seq::empty());
    let mut out: Vec<String> = Vec::new();
    assert(text::texts(out@) =~= Seq::empty());
    let mut i: usize = 0;
    while i < targets.len()
        invariant
            i <= targets.len(),
            all == target_views(targets@),
            text::texts(out@) == ids_of(all.take(i as int)),
        decreases targets.len() - i,
    {
        assert(all.take(i + 1).drop_last() =~= all.take(i as int));
        assert(all.take(i + 1).last() == targets[i as int]@);
        match &targets[i].id {
            Some(known) => {
                let id = known.clone();
                proof {
                    text::lemma_texts_push(out@, id);
                }
                out.push(id);
            },
            None => {},
        }
        assert(text::texts(out@) =~= ids_of(all.take(i + 1)));
        i = i + 1;
    }
    assert(all.take(i as int) =~= all);
    out
}

/// The targets that are new.
pub open spec fn new_targets(before: Seq<Seq<char>>, after: Seq<Seq<char>>) -> Seq<Seq<char>>
    decreases after.len(),
{
    if after.len() == 0 {
        Seq::empty()
    } else if before.contains(after.last()) {
        new_targets(before, after.drop_last())
    } else {
        new_targets(before, after.drop_last()).push(after.last())
    }
}

/// The one target that is new; nothing where it cannot be told which of several is meant.
pub open spec fn the_new_target(before: Seq<Seq<char>>, after: Seq<Seq<char>>) -> Option<
    Seq<char>,
> {
    let added = new_targets(before, after);
    if added.len() == 1 {
        Some(added[0])
    } else {
        None
    }
}

/// Whether a list holds a text.
pub fn has_text(list: &Vec<String>, s: &str) -> (r: bool)
    ensures
        r == text::texts(list@).contains(s@),
{
    let ghost all = text::texts(list@);
    let mut i: usize = 0;
    while i < list.len()
        invariant
            i <= list.len(),
            all == text::texts(list@),
            forall|j: int| 0 <= j < i ==> #[trigger] all[j] != s@,
        decreases list.len() - i,
    {
        if same(list[i].as_str(), s) {
            assert(all[i as int] == s@);
            return true;
        }
        assert(all[i as int] != s@);
        i = i + 1;
    }
    false
}

/// The one target that is new.
pub fn added_target(before: &Vec<String>, after: &Vec<String>) -> (r: Option<String>)
    ensures
        text::opt_text(r) == the_new_target(text::texts(before@), text::texts(after@)),
{
    let ghost old_ids = text::texts(before@);
    let ghost all = text::texts(after@);
    assert(all.take(0) =~= Seq::empty());
    let mut first: usize = 0;
    let mut count: usize = 0;
    let mut i: usize = 0;
    while i < after.len()
        invariant
            i <= after.len(),
            count <= i,
            old_ids == text::texts(before@),
            all == text::texts(after@),
            count == new_targets(old_ids, all.take(i as int)).len(),
            count > 0 ==> first < after.len() && new_targets(old_ids, all.take(i as int))[0]
                == all[first as int],
        decreases after.len() - i,
    {
        assert(all.take(i + 1).drop_last() =~= all.take(i as int));
        assert(all.take(i + 1).last() == after[i as int]@);
        if !has_text(before, after[i].as_str()) {
            if count == 0 {
                first = i;
            }
            count = count + 1;
        }
        i = i + 1;
    }
    assert(all.take(i as int) =~= all);
    if count == 1 {
        Some(after[first].clone())
    } else {
        None
    }
}

/// The address to close a tab by, or why it cannot be closed.
pub open spec fn close_path(targets: Seq<TargetView>, id: Seq<char>) -> Result<
    Seq<char>,
    Seq<char>,
> {
    if with_id(targets, id) is Some {
        Ok("/json/close/"@ + id)
    } else {
        Err("page target "@ + id + " is already gone"@)
    }
}

/// The address to close a tab by.
pub fn close_target(targets: &Vec<PageTarget>, target_id: &str) -> (r: Result<String, String>)
    ensures
        text::result_text(r) == close_path(target_views(targets@), target_id@),
{
    match find_id(targets, target_id) {
        Some(_) => Ok(joined("/json/close/", target_id)),
        None => Err(joined3("page target ", target_id, " is already gone")),
    }
}

/// What the browser's answer to closing a tab means.
pub open spec fn close_answer(body: Seq<char>) -> Result<(), Seq<char>> {
    if text::holds(body, "Target is closing"@) || text::trimmed(body).len() == 0 {
        Ok(())
    } else {
        Err("unexpected /json/close response: "@ + text::trimmed(body))
    }
}

/// A unit result as a value of the specification.
pub open spec fn unit_result(r: Result<(), String>) -> Result<(), Seq<char>> {
    match r {
        Ok(()) => Ok(()),
        Err(message) => Err(message@),
    }
}

/// What the browser's answer to closing a tab means.
pub fn check_close_answer(body: &str) -> (r: Result<(), String>)
    ensures
        unit_result(r) == close_answer(body@),
{
    let said = trim(body);
    if contains(body, "Target is closing") || said.as_str().unicode_len() == 0 {
        Ok(())
    } else {
        Err(joined("unexpected /json/close response: ", said.as_str()))
    }
}

/// A session is only ever connected to its own tab: the one with its target, or, where the
/// target is not known, the only one at its address.
pub proof fn only_the_sessions_tab_is_driven(
    targets: Seq<TargetView>,
    id: Option<Seq<char>>,
    url: Option<Seq<char>>,
)
    ensures
        own_target(targets, id, url) matches Ok(t) ==> {
            &&& targets.contains(t)
            &&& id is Some ==> t.id == id
            &&& id is None ==> url == Some(t.url) && forall|k: int|
                0 <= k < targets.len() && (#[trigger] targets[k]).url == t.url ==> targets[k] == t
        },
{
    match id {
        Some(wanted) => {
            lemma_with_id(targets, wanted);
        },
        None => {
            if let Some(u) = url {
                lemma_at_url(targets, u);
            }
        },
    }
}

proof fn lemma_with_id(targets: Seq<TargetView>, id: Seq<char>)
    ensures
        with_id(targets, id) matches Some(t) ==> targets.contains(t) && t.id == Some(id),
    decreases targets.len(),
{
    if targets.len() > 0 {
        if targets[0].id == Some(id) {
            assert(targets.contains(targets[0]));
        } else {
            lemma_with_id(targets.skip(1), id);
            if let Some(t) = with_id(targets, id) {
                let rest = targets.skip(1);
                let k = choose|k: int| 0 <= k < rest.len() && rest[k] == t;
                assert(targets[k + 1] == t);
            }
        }
    }
}

proof fn lemma_at_url(targets: Seq<TargetView>, url: Seq<char>)
    ensures
        forall|k: int|
            0 <= k < at_url(targets, url).len() ==> targets.contains(
                #[trigger] at_url(targets, url)[k],
            ) && at_url(targets, url)[k].url == url,
        forall|k: int|
            0 <= k < targets.len() && (#[trigger] targets[k]).url == url ==> at_url(
                targets,
                url,
            ).contains(targets[k]),
    decreases targets.len(),
{
    if targets.len() > 0 {
        let front = targets.drop_last();
        let found = at_url(targets, url);
        let less = at_url(front, url);
        lemma_at_url(front, url);
        assert forall|k: int| 0 <= k < found.len() implies targets.contains(#[trigger] found[k])
            && found[k].url == url by {
            if k < less.len() {
                assert(found[k] == less[k]);
                let j = choose|j: int| 0 <= j < front.len() && front[j] == less[k];
                assert(targets[j] == found[k]);
            } else {
                assert(targets[targets.len() - 1] == found[k]);
            }
        }
        assert forall|k: int|
            0 <= k < targets.len() && (#[trigger] targets[k]).url == url implies found.contains(
            targets[k],
        ) by {
            if k < front.len() {
                assert(front[k] == targets[k]);
                let j = choose|j: int| 0 <= j < less.len() && less[j] == front[k];
                assert(found[j] == targets[k]);
            } else {
                assert(found[found.len() - 1] == targets[k]);
            }
        }
    }
}

/// What to do with a message of the browser while a call waits for its answer.
pub enum CdpStep {
    /// Read on.
    More,
    /// This is the answer.
    Done(Json),
    /// The call has failed.
    Failed(String),
}

/// What to do with a message of the browser while a call waits for its answer.
pub enum CdpStepView {
    More,
    Done(JsonView),
    Failed(Seq<char>),
}

impl View for CdpStep {
    type V = CdpStepView;

    open spec fn view(&self) -> CdpStepView {
        match self {
            CdpStep::More => CdpStepView::More,
            CdpStep::Done(j) => CdpStepView::Done(j@),
            CdpStep::Failed(message) => CdpStepView::Failed(message@),
        }
    }
}

/// The `i64` of a member.
pub open spec fn i64_field(v: JsonView, key: Seq<char>) -> Option<i64> {
    match json::field(v, key) {
        Some(inner) => json::i64_of(inner),
        None => None,
    }
}

/// The `i64` of a member.
pub fn get_i64(value: &Json, key: &str) -> (r: Option<i64>)
    ensures
        r == i64_field(value@, key@),
{
    match value.get(key) {
        Some(inner) => inner.as_i64(),
        None => None,
    }
}

/// What a message means for the call with this id: events and answers to other calls are
/// passed over.
pub open spec fn call_step(message: Result<JsonView, Seq<char>>, id: i64) -> CdpStepView {
    match message {
        Err(error) => CdpStepView::Failed("failed to parse CDP response: "@ + error),
        Ok(v) => if i64_field(v, "id"@) == Some(id) {
            match json::field(v, "error"@) {
                Some(error) => CdpStepView::Failed("CDP call failed: "@ + json::json_text(error)),
                None => CdpStepView::Done(v),
            }
        } else {
            CdpStepView::More
        },
    }
}

/// A connection to a tab: the id that its next call gets.
pub struct CdpClient {
    pub next_id: i64,
}

impl CdpClient {
    /// A connection on which nothing has been called yet.
    pub fn new() -> (r: CdpClient)
        ensures
            r.next_id == 1,
    {
        CdpClient { next_id: 1 }
    }

    /// Begins a call: its id and the text to send.
    pub fn call(&mut self, request: Json) -> (r: (i64, String))
        requires
            old(self).next_id < i64::MAX,
        ensures
            r.0 == old(self).next_id,
            r.1@ == json::json_text(
                json::put(
                    request@,
                    "id"@,
                    JsonView::Number(json::integer(old(self).next_id)),
                ),
            ),
            final(self).next_id == old(self).next_id + 1,
    {
        let id: i64 = self.next_id;
        self.next_id = id + 1;
        let numbered = request.with("id", Json::signed(id));
        (id, numbered.text())
    }
}

/// Takes in a parsed message while a call waits for its answer.
pub fn answer_step(value: Json, id: i64) -> (r: CdpStep)
    ensures
        r@ == call_step(Ok::<JsonView, Seq<char>>(value@), id),
{
    if get_i64(&value, "id") == Some(id) {
        let refused = match value.get("error") {
            Some(error) => Some(error.text()),
            None => None,
        };
        match refused {
            Some(error) => CdpStep::Failed(joined("CDP call failed: ", error.as_str())),
            None => CdpStep::Done(value),
        }
    } else {
        CdpStep::More
    }
}

/// Takes in a message of the browser while a call waits for its answer.
pub fn on_message(message: &str, id: i64) -> (r: CdpStep)
    ensures
        r@ == call_step(json::json_parse(message@), id),
{
    match Json::parse(message) {
        Ok(value) => answer_step(value, id),
        Err(error) => CdpStep::Failed(joined("failed to parse CDP response: ", error.as_str())),
    }
}

/// A call of a method.
pub open spec fn method_call(method: Seq<char>, params: JsonView) -> JsonView {
    json::put(
        json::put(json::empty_object(), "method"@, json::jstr(method)),
        "params"@,
        params,
    )
}

fn method_json(method: &str, params: Json) -> (r: Json)
    ensures
        r@ == method_call(method@, params@),
{
    Json::object().with("method", Json::str(method)).with("params", params)
}

/// The call that evaluates an expression on a page.
pub open spec fn evaluation(expression: Seq<char>) -> JsonView {
    method_call(
        "Runtime.evaluate"@,
        json::put(
            json::put(json::empty_object(), "expression"@, json::jstr(expression)),
            "returnByValue"@,
            JsonView::Bool(true),
        ),
    )
}

/// The call that evaluates an expression on a page.
pub fn evaluate_request(expression: &str) -> (r: Json)
    ensures
        r@ == evaluation(expression@),
{
    method_json(
        "Runtime.evaluate",
        Json::object().with("expression", Json::str(expression)).with(
            "returnByValue",
            Json::Bool(true),
        ),
    )
}

/// What an exception says of itself.
pub open spec fn exception_text(details: JsonView) -> Seq<char> {
    let described = match json::field(details, "exception"@) {
        Some(exception) => json::text_field(exception, "description"@),
        None => None,
    };
    match described {
        Some(description) => description,
        None => match json::text_field(details, "text"@) {
            Some(t) => t,
            None => "unknown evaluation error"@,
        },
    }
}

/// The value that an evaluation gave, or why it gave none.
pub open spec fn evaluated(answer: JsonView) -> Result<JsonView, Seq<char>> {
    match json::field(answer, "result"@) {
        None => Err("Runtime.evaluate returned no result"@),
        Some(result) => match json::field(result, "exceptionDetails"@) {
            Some(details) => Err("expression threw: "@ + exception_text(details)),
            None => Ok(
                match json::field(result, "result"@) {
                    Some(inner) => match json::field(inner, "value"@) {
                        Some(value) => value,
                        None => JsonView::Null,
                    },
                    None => JsonView::Null,
                },
            ),
        },
    }
}

fn exception_message(details: &Json) -> (r: String)
    ensures
        r@ == exception_text(details@),
{
    let described = match details.get("exception") {
        Some(exception) => exception.get_str("description"),
        None => None,
    };
    match described {
        Some(description) => description.to_string(),
        None => match details.get_str("text") {
            Some(text) => text.to_string(),
            None => "unknown evaluation error".to_string(),
        },
    }
}

/// The value that an evaluation gave, or why it gave none.
pub fn evaluate_value(response: &Json) -> (r: Result<Json, String>)
    ensures
        json::result_view(r) == evaluated(response@),
{
    match response.get("result") {
        None => Err("Runtime.evaluate returned no result".to_string()),
        Some(result) => match result.get("exceptionDetails") {
            Some(details) => Err(
                joined("expression threw: ", exception_message(details).as_str()),
            ),
            None => match result.get("result") {
                Some(inner) => match inner.get("value") {
                    Some(value) => Ok(value.copy()),
                    None => Ok(Json::Null),
                },
                None => Ok(Json::Null),
            },
        },
    }
}

/// Whether an error only says that the page is being left.
pub open spec fn transient(error: Seq<char>) -> bool {
    ||| text::holds(error, "Cannot find context with specified id"@)
    ||| text::holds(error, "Execution context was destroyed"@)
    ||| text::holds(error, "Inspected target navigated or closed"@)
}

/// Whether an error only says that the page is being left.
pub fn is_transient_navigation_error(error: &str) -> (r: bool)
    ensures
        r == transient(error@),
{
    contains(error, "Cannot find context with specified id") || contains(
        error,
        "Execution context was destroyed",
    ) || contains(error, "Inspected target navigated or closed")
}

/// An expression made into a truth value.
pub open spec fn truth_of(expression: Seq<char>) -> Seq<char> {
    "!!("@ + expression + ")"@
}

/// An expression made into a truth value.
pub fn truth_expression(expression: &str) -> (r: String)
    ensures
        r@ == truth_of(expression@),
{
    joined3("!!(", expression, ")")
}

/// The call that leads a page to an address.
pub fn navigate_request(url: &str) -> (r: Json)
    ensures
        r@ == method_call(
            "Page.navigate"@,
            json::put(json::empty_object(), "url"@, json::jstr(url@)),
        ),
{
    method_json("Page.navigate", Json::object().with("url", Json::str(url)))
}

/// Whether the browser went to the address.
pub open spec fn navigation(answer: JsonView) -> Result<(), Seq<char>> {
    match json::field(answer, "result"@) {
        Some(result) => match json::text_field(result, "errorText"@) {
            Some(error) => if error.len() > 0 {
                Err("Page.navigate failed: "@ + error)
            } else {
                Ok(())
            },
            None => Ok(()),
        },
        None => Ok(()),
    }
}

/// Whether the browser went to the address.
pub fn check_navigation(response: &Json) -> (r: Result<(), String>)
    ensures
        unit_result(r) == navigation(response@),
{
    match response.get("result") {
        Some(result) => match result.get_str("errorText") {
            Some(error) => {
                if error.unicode_len() > 0 {
                    Err(joined("Page.navigate failed: ", error))
                } else {
                    Ok(())
                }
            },
            None => Ok(()),
        },
        None => Ok(()),
    }
}

/// What to do next while a page is waited for after going to an address.
pub enum GotoStep {
    /// Ask the page where it is.
    AskLocation,
    /// Wait a moment, then look again.
    Sleep,
    /// The page is there, at this address.
    Arrived(String),
    /// Waiting is over.
    Failed(String),
}

/// What to do next while a page is waited for after going to an address.
pub enum GotoStepView {
    AskLocation,
    Sleep,
    Arrived(Seq<char>),
    Failed(Seq<char>),
}

impl View for GotoStep {
    type V = GotoStepView;

    open spec fn view(&self) -> GotoStepView {
        match self {
            GotoStep::AskLocation => GotoStepView::AskLocation,
            GotoStep::Sleep => GotoStepView::Sleep,
            GotoStep::Arrived(url) => GotoStepView::Arrived(url@),
            GotoStep::Failed(message) => GotoStepView::Failed(message@),
        }
    }
}

/// The message of a wait that took too long.
pub open spec fn goto_timeout(timeout: u64, wait: Seq<char>) -> Seq<char> {
    "goto timed out after "@ + text::decimal(timeout as nat) + "ms while waiting for "@ + wait
}

/// Waiting on, unless the time is up.
pub open spec fn goto_wait(timeout: u64, wait: Seq<char>, late: bool) -> GotoStepView {
    if late {
        GotoStepView::Failed(goto_timeout(timeout, wait))
    } else {
        GotoStepView::Sleep
    }
}

/// What a look at the page means.
pub open spec fn goto_looked(
    result: Result<JsonView, Seq<char>>,
    timeout: u64,
    wait: Seq<char>,
    late: bool,
) -> GotoStepView {
    match result {
        Ok(v) => if json::bool_of(v) == Some(true) {
            GotoStepView::AskLocation
        } else {
            goto_wait(timeout, wait, late)
        },
        Err(error) => if transient(error) {
            goto_wait(timeout, wait, late)
        } else if text::begins(error, "expression threw:"@) {
            GotoStepView::Failed(error)
        } else if late {
            GotoStepView::Failed(goto_timeout(timeout, wait) + ": "@ + error)
        } else {
            GotoStepView::Sleep
        },
    }
}

/// What the page's answer to where it is means.
pub open spec fn goto_located(
    result: Result<JsonView, Seq<char>>,
    url: Seq<char>,
    timeout: u64,
    wait: Seq<char>,
    late: bool,
) -> GotoStepView {
    match result {
        Ok(v) => GotoStepView::Arrived(
            match json::text_of(v) {
                Some(found) => found,
                None => url,
            },
        ),
        Err(error) => if transient(error) {
            goto_wait(timeout, wait, late)
        } else {
            GotoStepView::Failed(error)
        },
    }
}

fn goto_timeout_text(timeout: u64, wait: &str) -> (r: String)
    ensures
        r@ == goto_timeout(timeout, wait@),
{
    let mut out = joined3(
        "goto timed out after ",
        number_text(timeout as u128).as_str(),
        "ms while waiting for ",
    );
    out.append(wait);
    out
}

fn goto_wait_step(timeout: u64, wait: &str, late: bool) -> (r: GotoStep)
    ensures
        r@ == goto_wait(timeout, wait@, late),
{
    if late {
        GotoStep::Failed(goto_timeout_text(timeout, wait))
    } else {
        GotoStep::Sleep
    }
}

/// Decides what a look at the page means, where `late` says whether the time is up.
pub fn goto(result: Result<Json, String>, timeout: u64, wait_expression: &str, late: bool) -> (r:
    GotoStep)
    ensures
        r@ == goto_looked(json::result_view(result), timeout, wait_expression@, late),
{
    match result {
        Ok(value) => {
            if value.as_bool() == Some(true) {
                GotoStep::AskLocation
            } else {
                goto_wait_step(timeout, wait_expression, late)
            }
        },
        Err(error) => {
            if is_transient_navigation_error(error.as_str()) {
                goto_wait_step(timeout, wait_expression, late)
            } else if starts_with(error.as_str(), "expression threw:") {
                GotoStep::Failed(error)
            } else if late {
                let mut out = goto_timeout_text(timeout, wait_expression);
                out.append(": ");
                out.append(error.as_str());
                GotoStep::Failed(out)
            } else {
                GotoStep::Sleep
            }
        },
    }
}

/// Decides what the page's answer to where it is means.
pub fn goto_location(
    result: Result<Json, String>,
    url: &str,
    timeout: u64,
    wait_expression: &str,
    late: bool,
) -> (r: GotoStep)
    ensures
        r@ == goto_located(json::result_view(result), url@, timeout, wait_expression@, late),
{
    match result {
        Ok(value) => match value.as_str() {
            Some(found) => GotoStep::Arrived(found.to_string()),
            None => GotoStep::Arrived(url.to_string()),
        },
        Err(error) => {
            if is_transient_navigation_error(error.as_str()) {
                goto_wait_step(timeout, wait_expression, late)
            } else {
                GotoStep::Failed(error)
            }
        },
    }
}

/// What to do next while an expression is waited for.
pub enum WaitStep {
    /// Look at the page.
    Look,
    /// Wait a moment, then go on; the connection is kept or made anew.
    Sleep { reconnect: bool },
    /// The expression holds.
    Done,
    /// Waiting is over.
    Failed(String),
}

/// What to do next while an expression is waited for.
pub enum WaitStepView {
    Look,
    Sleep { reconnect: bool },
    Done,
    Failed(Seq<char>),
}

impl View for WaitStep {
    type V = WaitStepView;

    open spec fn view(&self) -> WaitStepView {
        match self {
            WaitStep::Look => WaitStepView::Look,
            WaitStep::Sleep { reconnect } => WaitStepView::Sleep { reconnect: *reconnect },
            WaitStep::Done => WaitStepView::Done,
            WaitStep::Failed(message) => WaitStepView::Failed(message@),
        }
    }
}

/// What an attempt to connect means.
pub open spec fn wait_connected(
    result: Result<(), Seq<char>>,
    timeout: u64,
    expression: Seq<char>,
    late: bool,
) -> WaitStepView {
    match result {
        Ok(()) => WaitStepView::Look,
        Err(error) => if late {
            WaitStepView::Failed(
                "wait_for_js timed out after "@ + text::decimal(timeout as nat)
                    + "ms (page not reachable: "@ + error + "): "@ + expression,
            )
        } else {
            WaitStepView::Sleep { reconnect: true }
        },
    }
}

/// What a look at the page means. A broken connection is made anew.
pub open spec fn wait_looked(
    result: Result<JsonView, Seq<char>>,
    timeout: u64,
    expression: Seq<char>,
    late: bool,
) -> WaitStepView {
    let threw = result matches Err(error) && text::begins(error, "expression threw:"@);
    if result matches Ok(v) && json::bool_of(v) == Some(true) {
        WaitStepView::Done
    } else if threw {
        WaitStepView::Failed(result->Err_0)
    } else if late {
        WaitStepView::Failed(
            "wait_for_js timed out after "@ + text::decimal(timeout as nat) + "ms: "@ + expression,
        )
    } else {
        WaitStepView::Sleep { reconnect: result is Err }
    }
}

/// Decides what an attempt to connect means, where `late` says whether the time is up.
pub fn wait_connection(
    result: Result<(), String>,
    timeout: u64,
    expression: &str,
    late: bool,
) -> (r: WaitStep)
    ensures
        r@ == wait_connected(unit_result(result), timeout, expression@, late),
{
    match result {
        Ok(()) => WaitStep::Look,
        Err(error) => {
            if late {
                let mut out = joined3(
                    "wait_for_js timed out after ",
                    number_text(timeout as u128).as_str(),
                    "ms (page not reachable: ",
                );
                out.append(error.as_str());
                out.append("): ");
                out.append(expression);
                WaitStep::Failed(out)
            } else {
                WaitStep::Sleep { reconnect: true }
            }
        },
    }
}

fn wait_again(timeout: u64, expression: &str, late: bool, reconnect: bool) -> (r: WaitStep)
    ensures
        r@ == (if late {
            WaitStepView::Failed(
                "wait_for_js timed out after "@ + text::decimal(timeout as nat) + "ms: "@
                    + expression@,
            )
        } else {
            WaitStepView::Sleep { reconnect }
        }),
{
    if late {
        let mut out = joined3(
            "wait_for_js timed out after ",
            number_text(timeout as u128).as_str(),
            "ms: ",
        );
        out.append(expression);
        WaitStep::Failed(out)
    } else {
        WaitStep::Sleep { reconnect }
    }
}

/// Decides what a look at the page means, where `late` says whether the time is up.
pub fn wait_for_js(
    result: Result<Json, String>,
    timeout: u64,
    expression: &str,
    late: bool,
) -> (r: WaitStep)
    ensures
        r@ == wait_looked(json::result_view(result), timeout, expression@, late),
{
    match result {
        Ok(value) => {
            if value.as_bool() == Some(true) {
                WaitStep::Done
            } else {
                wait_again(timeout, expression, late, false)
            }
        },
        Err(error) => {
            if starts_with(error.as_str(), "expression threw:") {
                WaitStep::Failed(error)
            } else {
                wait_again(timeout, expression, late, true)
            }
        },
    }
}

/// A wait ends at the first look after its time is up, whatever the page says, and a look
/// that finds the expression to hold ends it at once.
pub proof fn waits_end(
    result: Result<JsonView, Seq<char>>,
    timeout: u64,
    expression: Seq<char>,
    url: Seq<char>,
)
    ensures
        !(wait_looked(result, timeout, expression, true) is Sleep),
        !(goto_looked(result, timeout, expression, true) is Sleep),
        !(goto_located(result, url, timeout, expression, true) is Sleep),
        result matches Ok(v) && json::bool_of(v) == Some(true) ==> wait_looked(
            result,
            timeout,
            expression,
            false,
        ) is Done,
{
}

} // verus!
