//! Scripts of tool calls that are run one after the other.
use crate::json;
use crate::json::{Json, JsonView};
use crate::mcp;
use crate::text;
use crate::text::{joined, joined3, parse_number, same, split};
use vstd::prelude::*;

verus! {

/// What a batch is told on the command line.
pub struct BatchOptions {
    pub profile_name: String,
    pub session_id: String,
    pub script_path: String,
    pub output_path: Option<String>,
    pub fail_fast: bool,
}

/// The flags of a batch that were read so far.
pub struct BatchFlags {
    pub profile: Option<Seq<char>>,
    pub session: Option<Seq<char>>,
    pub script: Option<Seq<char>>,
    pub output: Option<Seq<char>>,
    pub fail_fast: bool,
}

/// No flags.
pub open spec fn no_flags() -> BatchFlags {
    BatchFlags { profile: None, session: None, script: None, output: None, fail_fast: false }
}

/// Whether a flag of a batch is followed by a value.
pub open spec fn takes_value(flag: Seq<char>) -> bool {
    flag == "--profile"@ || flag == "--session"@ || flag == "--script"@ || flag == "--output"@
}

/// The flags with one of them set; a later one replaces an earlier one.
pub open spec fn with_flag(flags: BatchFlags, flag: Seq<char>, value: Seq<char>) -> BatchFlags {
    if flag == "--profile"@ {
        BatchFlags { profile: Some(value), ..flags }
    } else if flag == "--session"@ {
        BatchFlags { session: Some(value), ..flags }
    } else if flag == "--script"@ {
        BatchFlags { script: Some(value), ..flags }
    } else {
        BatchFlags { output: Some(value), ..flags }
    }
}

/// The flags after the arguments from `i` on.
pub open spec fn batch_flags(args: Seq<Seq<char>>, i: int, flags: BatchFlags) -> Result<
    BatchFlags,
    Seq<char>,
>
    decreases args.len() - i,
{
    if i >= args.len() {
        Ok(flags)
    } else if takes_value(args[i]) {
        if i + 1 < args.len() {
            batch_flags(args, i + 2, with_flag(flags, args[i], args[i + 1]))
        } else {
            Err(args[i] + " requires a value"@)
        }
    } else if args[i] == "--fail-fast"@ {
        batch_flags(args, i + 1, BatchFlags { fail_fast: true, ..flags })
    } else {
        Err("unknown argument: "@ + args[i])
    }
}

/// The options that the arguments of a batch give.
pub open spec fn batch_args(args: Seq<Seq<char>>) -> Result<BatchFlags, Seq<char>> {
    match batch_flags(args, 0, no_flags()) {
        Err(message) => Err(message),
        Ok(flags) => if flags.profile is None {
            Err("--profile is required"@)
        } else if flags.session is None {
            Err("--session is required"@)
        } else if flags.script is None {
            Err("--script is required"@)
        } else {
            Ok(flags)
        },
    }
}

impl View for BatchOptions {
    type V = BatchFlags;

    open spec fn view(&self) -> BatchFlags {
        BatchFlags {
            profile: Some(self.profile_name@),
            session: Some(self.session_id@),
            script: Some(self.script_path@),
            output: text::opt_text(self.output_path),
            fail_fast: self.fail_fast,
        }
    }
}

/// Reads the arguments of a batch.
pub fn parse_batch_args(args: &[String]) -> (r: Result<BatchOptions, String>)
    ensures
        match r {
            Ok(options) => batch_args(text::texts(args@)) == Ok::<BatchFlags, Seq<char>>(options@),
            Err(message) => batch_args(text::texts(args@)) == Err::<BatchFlags, Seq<char>>(
                message@,
            ),
        },
{
    let ghost all = text::texts(args@);
    let mut profile_name: Option<String> = None;
    let mut session_id: Option<String> = None;
    let mut script_path: Option<String> = None;
    let mut output_path: Option<String> = None;
    let mut fail_fast = false;
    let mut index: usize = 0;
    while index < args.len()
        invariant
            index <= args.len(),
            all == text::texts(args@),
            all.len() == args.len(),
            batch_flags(all, 0, no_flags()) == batch_flags(
                all,
                index as int,
                BatchFlags {
                    profile: text::opt_text(profile_name),
                    session: text::opt_text(session_id),
                    script: text::opt_text(script_path),
                    output: text::opt_text(output_path),
                    fail_fast,
                },
            ),
        decreases args.len() - index,
    {
        let flag = args[index].as_str();
        assert(all[index as int] == flag@);
        if same(flag, "--profile") || same(flag, "--session") || same(flag, "--script") || same(
            flag,
            "--output",
        ) {
            if args.len() - index <= 1 {
                return Err(joined(flag, " requires a value"));
            }
            let value = args[index + 1].clone();
            assert(all[index + 1] == value@);
            if same(flag, "--profile") {
                profile_name = Some(value);
            } else if same(flag, "--session") {
                session_id = Some(value);
            } else if same(flag, "--script") {
                script_path = Some(value);
            } else {
                output_path = Some(value);
            }
            index = index + 2;
        } else if same(flag, "--fail-fast") {
            fail_fast = true;
            index = index + 1;
        } else {
            return Err(joined("unknown argument: ", flag));
        }
    }
    let profile_name = match profile_name {
        Some(name) => name,
        None => {
            return Err("--profile is required".to_string());
        },
    };
    let session_id = match session_id {
        Some(id) => id,
        None => {
            return Err("--session is required".to_string());
        },
    };
    let script_path = match script_path {
        Some(path) => path,
        None => {
            return Err("--script is required".to_string());
        },
    };
    Ok(BatchOptions { profile_name, session_id, script_path, output_path, fail_fast })
}

/// Whether an object only refers to an earlier result.
pub open spec fn is_ref(m: Map<Seq<char>, JsonView>) -> bool {
    m.contains_key("$ref"@) && forall|k: Seq<char>| #[trigger] m.contains_key(k) ==> k == "$ref"@
}

/// Whether every reference in a value names what it refers to.
pub open spec fn refs_fine(v: JsonView) -> bool
    decreases v,
{
    match v {
        JsonView::Object(m) => if is_ref(m) {
            m["$ref"@] is Str
        } else {
            forall|k: Seq<char>| #[trigger] m.contains_key(k) ==> refs_fine(m[k])
        },
        JsonView::Array(items) => forall|i: int|
            0 <= i < items.len() ==> refs_fine(#[trigger] items[i]),
        _ => true,
    }
}

/// The first result with a label.
pub open spec fn labelled(results: Seq<JsonView>, label: Seq<char>) -> Option<JsonView>
    decreases results.len(),
{
    if results.len() == 0 {
        None
    } else if json::text_field(results[0], "label"@) == Some(label) {
        Some(results[0])
    } else {
        labelled(results.skip(1), label)
    }
}

/// What stands under a part of a path: the item of an array where the part is a number,
/// else the member of an object. Null, where there is none.
pub open spec fn under(v: JsonView, part: Seq<char>) -> JsonView {
    match text::parsed(part, usize::MAX as nat) {
        Some(index) => match v {
            JsonView::Array(items) => if index < items.len() {
                items[index as int]
            } else {
                JsonView::Null
            },
            _ => JsonView::Null,
        },
        None => match json::field(v, part) {
            Some(x) => x,
            None => JsonView::Null,
        },
    }
}

/// What stands at the end of a path.
pub open spec fn walked(v: JsonView, parts: Seq<Seq<char>>) -> JsonView
    decreases parts.len(),
{
    if parts.len() == 0 {
        v
    } else {
        under(walked(v, parts.drop_last()), parts.last())
    }
}

/// What a reference stands for: the first part of the path is the label of a result, the
/// others lead into it.
pub open spec fn path_value(path: Seq<char>, results: Seq<JsonView>) -> JsonView {
    let parts = text::parts(path, '.');
    match labelled(results, parts[0]) {
        Some(entry) => walked(entry, parts.skip(1)),
        None => JsonView::Null,
    }
}

/// A value with what its references stand for.
pub open spec fn resolved(v: JsonView, results: Seq<JsonView>) -> JsonView
    decreases v,
{
    match v {
        JsonView::Object(m) => if is_ref(m) {
            match m["$ref"@] {
                JsonView::Str(path) => path_value(path, results),
                _ => JsonView::Null,
            }
        } else {
            JsonView::Object(
                Map::new(
                    |k: Seq<char>| m.contains_key(k),
                    |k: Seq<char>|
                        if m.contains_key(k) {
                            resolved(m[k], results)
                        } else {
                            JsonView::Null
                        },
                ),
            )
        },
        JsonView::Array(items) => JsonView::Array(
            Seq::new(
                items.len(),
                |i: int|
                    if 0 <= i < items.len() {
                        resolved(items[i], results)
                    } else {
                        JsonView::Null
                    },
            ),
        ),
        _ => v,
    }
}

proof fn lemma_parts_begin(cur: Seq<char>, s: Seq<char>, c: char)
    ensures
        text::parts_from(cur, s, c).len() > 0,
    decreases s.len(),
{
    if s.len() > 0 {
        if s[0] == c {
            lemma_parts_begin(Seq::empty(), s.skip(1), c);
        } else {
            lemma_parts_begin(cur.push(s[0]), s.skip(1), c);
        }
    }
}

/// What a reference stands for.
pub fn resolve_path(path: &str, results: &Vec<Json>) -> (r: Json)
    ensures
        r@ == path_value(path@, json::trees(results@)),
{
    let parts = split(path, '.');
    let ghost names = text::texts(parts@);
    let ghost all = json::trees(results@);
    proof {
        lemma_parts_begin(Seq::empty(), path@, '.');
        json::lemma_trees_index(results@);
        assert(all.skip(0) =~= all);
    }
    let label = parts[0].as_str();
    let mut i: usize = 0;
    while i < results.len()
        invariant
            i <= results.len(),
            all == json::trees(results@),
            all.len() == results.len(),
            forall|j: int| 0 <= j < all.len() ==> #[trigger] all[j] == json::tree(results@[j]),
            names == text::texts(parts@),
            names == text::parts(path@, '.'),
            names.len() > 0,
            names[0] == label@,
            labelled(all, label@) == labelled(all.skip(i as int), label@),
        decreases results.len() - i,
    {
        assert(all.skip(i as int).skip(1) =~= all.skip(i + 1));
        assert(all.skip(i as int)[0] == json::tree(results@[i as int]));
        let found = match results[i].get_str("label") {
            Some(name) => same(name, label),
            None => false,
        };
        if found {
            return walk(&results[i], &parts);
        }
        i = i + 1;
    }
    Json::Null
}

/// What the parts of a path after its first one lead to.
fn walk(entry: &Json, parts: &Vec<String>) -> (r: Json)
    requires
        parts.len() > 0,
    ensures
        r@ == walked(entry@, text::texts(parts@).skip(1)),
{
    let ghost names = text::texts(parts@).skip(1);
    let mut current = entry.copy();
    let mut i: usize = 1;
    assert(names.take(0) =~= Seq::empty());
    while i < parts.len()
        invariant
            1 <= i <= parts.len(),
            names == text::texts(parts@).skip(1),
            current@ == walked(entry@, names.take(i - 1)),
        decreases parts.len() - i,
    {
        let ghost longer = names.take(i as int);
        assert(longer.drop_last() =~= names.take(i - 1));
        assert(longer.last() == parts@[i as int]@);
        let part = parts[i].as_str();
        let next = match parse_number(part, usize::MAX as u64) {
            Some(index) => match current.item(index as usize) {
                Some(x) => x.copy(),
                None => Json::Null,
            },
            None => match current.get(part) {
                Some(x) => x.copy(),
                None => Json::Null,
            },
        };
        current = next;
        i = i + 1;
    }
    assert(names.take(i - 1) =~= names);
    current
}

proof fn lemma_entry_present(fields: Seq<(String, Json)>, i: int)
    requires
        0 <= i < fields.len(),
    ensures
        json::members(fields).contains_key(fields[i].0@),
    decreases fields.len(),
{
    if i < fields.len() - 1 {
        assert(fields.drop_last()[i] == fields[i]);
        lemma_entry_present(fields.drop_last(), i);
    }
}

/// Whether an object only refers to an earlier result.
fn refers(fields: &Vec<(String, Json)>) -> (r: bool)
    ensures
        r == is_ref(json::members(fields@)),
{
    let ghost m = json::members(fields@);
    let mut i: usize = 0;
    while i < fields.len()
        invariant
            i <= fields.len(),
            m == json::members(fields@),
            forall|j: int| 0 <= j < i ==> (#[trigger] fields@[j]).0@ == "$ref"@,
        decreases fields.len() - i,
    {
        if !same(fields[i].0.as_str(), "$ref") {
            proof {
                lemma_entry_present(fields@, i as int);
            }
            return false;
        }
        i = i + 1;
    }
    proof {
        if fields.len() > 0 {
            lemma_entry_present(fields@, 0);
        }
        assert forall|k: Seq<char>| #[trigger] m.contains_key(k) implies k == "$ref"@ by {
            let j = json::lemma_members_entry(fields@, k);
        }
    }
    fields.len() > 0
}

proof fn lemma_members_resolved(
    before: Seq<(String, Json)>,
    after: Seq<(String, Json)>,
    results: Seq<JsonView>,
)
    requires
        before.len() == after.len(),
        forall|j: int| 0 <= j < before.len() ==> (#[trigger] after[j]).0@ == before[j].0@,
        forall|j: int| #[trigger]
            json::counts(before, j) ==> json::tree(after[j].1) == resolved(
                json::tree(before[j].1),
                results,
            ),
        !is_ref(json::members(before)),
    ensures
        JsonView::Object(json::members(after)) == resolved(
            JsonView::Object(json::members(before)),
            results,
        ),
{
    let done = resolved(JsonView::Object(json::members(before)), results)->Object_0;
    let m = json::members(after);
    assert forall|k: Seq<char>| #[trigger] m.contains_key(k) == done.contains_key(k) by {
        if m.contains_key(k) {
            let i = json::lemma_members_entry(after, k);
            assert(before[i].0@ == k);
            lemma_entry_present(before, i);
        }
        if done.contains_key(k) {
            let i = json::lemma_members_entry(before, k);
            assert(after[i].0@ == k);
            lemma_entry_present(after, i);
        }
    }
    assert forall|k: Seq<char>| m.contains_key(k) implies m[k] == done[k] by {
        let i = json::lemma_members_entry(before, k);
        assert(after[i].0@ == k);
        assert(json::counts(after, i)) by {
            assert forall|j: int| i < j < after.len() implies (#[trigger] after[j]).0@
                != after[i].0@ by {
                assert(before[j].0@ != before[i].0@);
            }
        }
        json::lemma_entry_member(after, i);
    }
    assert(m =~= done);
}

/// The value with what its references stand for.
fn resolve(value: &Json, results: &Vec<Json>) -> (r: Option<Json>)
    ensures
        r is Some == refs_fine(value@),
        r is Some ==> r->0@ == resolved(value@, json::trees(results@)),
    decreases value,
{
    let ghost earlier = json::trees(results@);
    match value {
        Json::Object(fields) => {
            if refers(fields) {
                return match value.get_str("$ref") {
                    Some(path) => Some(resolve_path(path, results)),
                    None => None,
                };
            }
            let mut out: Vec<(String, Json)> = Vec::new();
            let mut i: usize = 0;
            while i < fields.len()
                invariant
                    i <= fields.len(),
                    out.len() == i,
                    earlier == json::trees(results@),
                    *value == Json::Object(*fields),
                    !is_ref(json::members(fields@)),
                    forall|j: int| 0 <= j < i ==> (#[trigger] out@[j]).0@ == fields@[j].0@,
                    forall|j: int|
                        j < i && #[trigger] json::counts(fields@, j) ==> refs_fine(
                            json::tree(fields@[j].1),
                        ) && json::tree(out@[j].1) == resolved(
                            json::tree(fields@[j].1),
                            earlier,
                        ),
                decreases fields.len() - i,
            {
                let item = if json::entry_counts(fields, i) {
                    assert(decreases_to!(*value => value->Object_0));
                    assert(decreases_to!(value->Object_0@ => value->Object_0@[i as int]));
                    assert(decreases_to!(fields@[i as int] => fields@[i as int].1));
                    match resolve(&fields[i].1, results) {
                        Some(item) => item,
                        None => {
                            proof {
                                json::lemma_entry_member(fields@, i as int);
                            }
                            return None;
                        },
                    }
                } else {
                    Json::Null
                };
                let key = fields[i].0.clone();
                out.push((key, item));
                i = i + 1;
            }
            proof {
                let m = json::members(fields@);
                assert forall|k: Seq<char>| #[trigger] m.contains_key(k) implies refs_fine(m[k]) by {
                    let j = json::lemma_members_entry(fields@, k);
                    assert(json::counts(fields@, j));
                }
                lemma_members_resolved(fields@, out@, earlier);
            }
            Some(Json::Object(out))
        },
        Json::Array(items) => {
            let ghost all = json::trees(items@);
            proof {
                json::lemma_trees_index(items@);
            }
            let mut out: Vec<Json> = Vec::new();
            let mut i: usize = 0;
            while i < items.len()
                invariant
                    i <= items.len(),
                    out.len() == i,
                    earlier == json::trees(results@),
                    *value == Json::Array(*items),
                    all == json::trees(items@),
                    all.len() == items.len(),
                    forall|j: int| 0 <= j < all.len() ==> #[trigger] all[j] == json::tree(items@[j]),
                    forall|j: int| 0 <= j < i ==> refs_fine(#[trigger] all[j]),
                    forall|j: int|
                        0 <= j < i ==> json::tree(#[trigger] out@[j]) == resolved(all[j], earlier),
                decreases items.len() - i,
            {
                assert(decreases_to!(*value => value->Array_0));
                assert(decreases_to!(value->Array_0@ => value->Array_0@[i as int]));
                match resolve(&items[i], results) {
                    Some(item) => out.push(item),
                    None => {
                        assert(!refs_fine(all[i as int]));
                        return None;
                    },
                }
                i = i + 1;
            }
            proof {
                json::lemma_trees_index(out@);
                let done = resolved(JsonView::Array(all), earlier);
                assert(json::trees(out@) =~= done->Array_0);
            }
            Some(Json::Array(out))
        },
        _ => Some(value.copy()),
    }
}

/// The value with what its references to earlier results stand for.
pub fn resolve_refs(value: Json, results: &Vec<Json>) -> (r: Result<Json, String>)
    ensures
        match r {
            Ok(done) => refs_fine(value@) && done@ == resolved(value@, json::trees(results@)),
            Err(message) => !refs_fine(value@) && message@ == "$ref must be a string"@,
        },
{
    match resolve(&value, results) {
        Some(done) => Ok(done),
        None => Err("$ref must be a string".to_string()),
    }
}

/// Whether a value holds no references.
pub open spec fn ref_free(v: JsonView) -> bool
    decreases v,
{
    match v {
        JsonView::Object(m) => !is_ref(m) && forall|k: Seq<char>| #[trigger]
            m.contains_key(k) ==> ref_free(m[k]),
        JsonView::Array(items) => forall|i: int|
            0 <= i < items.len() ==> ref_free(#[trigger] items[i]),
        _ => true,
    }
}

/// A value without references is kept as it is.
pub proof fn values_without_references_are_kept(v: JsonView, results: Seq<JsonView>)
    requires
        ref_free(v),
    ensures
        refs_fine(v),
        resolved(v, results) == v,
    decreases v,
{
    match v {
        JsonView::Object(m) => {
            assert forall|k: Seq<char>| #[trigger] m.contains_key(k) implies refs_fine(m[k])
                && resolved(m[k], results) == m[k] by {
                assert(decreases_to!(v => m[k]));
                values_without_references_are_kept(m[k], results);
            }
            assert(resolved(v, results)->Object_0 =~= m);
        },
        JsonView::Array(items) => {
            assert forall|i: int| 0 <= i < items.len() implies refs_fine(#[trigger] items[i])
                && resolved(items[i], results) == items[i] by {
                values_without_references_are_kept(items[i], results);
            }
            assert(resolved(v, results)->Array_0 =~= items);
        },
        _ => {},
    }
}

/// A reference to a label that no result has stands for null.
pub proof fn unknown_labels_give_null(path: Seq<char>, results: Seq<JsonView>)
    requires
        forall|i: int|
            0 <= i < results.len() ==> json::text_field(#[trigger] results[i], "label"@) != Some(
                text::parts(path, '.')[0],
            ),
    ensures
        path_value(path, results) == JsonView::Null,
    decreases results.len(),
{
    if results.len() > 0 {
        assert forall|i: int| 0 <= i < results.skip(1).len() implies json::text_field(
            #[trigger] results.skip(1)[i],
            "label"@,
        ) != Some(text::parts(path, '.')[0]) by {
            assert(results.skip(1)[i] == results[i + 1]);
        }
        assert(results[0] == results[0]);
        unknown_labels_give_null(path, results.skip(1));
    }
}

/// The shape that a step has to have.
pub const STEP_SHAPE_HINT: &'static str =
    "{\"type\":\"tool\",\"name\":\"<mcp-tool>\",\"args\":{...}} or {\"type\":\"sleep_ms\",\"ms\":<u64>}";

/// How a batch ended.
pub enum BatchOutcome {
    Completed,
    StoppedOnError(String),
}

/// How a batch ended.
pub enum OutcomeView {
    Completed,
    StoppedOnError(Seq<char>),
}

impl View for BatchOutcome {
    type V = OutcomeView;

    open spec fn view(&self) -> OutcomeView {
        match self {
            BatchOutcome::Completed => OutcomeView::Completed,
            BatchOutcome::StoppedOnError(label) => OutcomeView::StoppedOnError(label@),
        }
    }
}

/// The steps of a script.
pub open spec fn script_steps(path: Seq<char>, content: Result<JsonView, Seq<char>>) -> Result<
    Seq<JsonView>,
    Seq<char>,
> {
    match content {
        Err(error) => Err("failed to parse "@ + path + ": "@ + error),
        Ok(value) => match json::items_of(value) {
            Some(steps) => Ok(steps),
            None => Err("script must be a JSON array of steps"@),
        },
    }
}

/// A batch that is under way.
pub struct BatchRun {
    pub steps: Vec<Json>,
    pub index: usize,
    pub results: Vec<Json>,
    pub next_id: u64,
    pub fail_fast: bool,
    pub stopped: Option<String>,
}

/// A batch that is under way.
pub struct BatchView {
    pub steps: Seq<JsonView>,
    pub index: int,
    pub results: Seq<JsonView>,
    pub next_id: u64,
    pub fail_fast: bool,
    pub stopped: Option<Seq<char>>,
}

impl View for BatchRun {
    type V = BatchView;

    open spec fn view(&self) -> BatchView {
        BatchView {
            steps: json::trees(self.steps@),
            index: self.index as int,
            results: json::trees(self.results@),
            next_id: self.next_id,
            fail_fast: self.fail_fast,
            stopped: text::opt_text(self.stopped),
        }
    }
}

/// What a batch does next.
pub enum BatchAction {
    /// Wait.
    Sleep { ms: u64 },
    /// Send a request and wait for the answer with that id.
    Call { id: u64, line: String },
    /// Write the results and end.
    Finish { output: String, outcome: BatchOutcome },
    /// End with an error.
    Fail { message: String },
}

/// What a batch does next.
pub enum BatchActionView {
    Sleep { ms: u64 },
    Call { id: u64, line: Seq<char> },
    Finish { output: Seq<char>, outcome: OutcomeView },
    Fail { message: Seq<char> },
}

impl View for BatchAction {
    type V = BatchActionView;

    open spec fn view(&self) -> BatchActionView {
        match self {
            BatchAction::Sleep { ms } => BatchActionView::Sleep { ms: *ms },
            BatchAction::Call { id, line } => BatchActionView::Call { id: *id, line: line@ },
            BatchAction::Finish { output, outcome } => BatchActionView::Finish {
                output: output@,
                outcome: outcome@,
            },
            BatchAction::Fail { message } => BatchActionView::Fail { message: message@ },
        }
    }
}

/// A value, or null where there is none.
pub open spec fn or_null(v: Option<JsonView>) -> JsonView {
    match v {
        Some(x) => x,
        None => JsonView::Null,
    }
}

/// The entry of a sleep among the results.
pub open spec fn sleep_result(step: JsonView, ms: u64) -> JsonView {
    json::put(
        json::put(
            json::put(json::empty_object(), "type"@, json::jstr("sleep_ms"@)),
            "label"@,
            or_null(json::field(step, "label"@)),
        ),
        "ms"@,
        json::num(ms),
    )
}

/// The entry of a tool call among the results.
pub open spec fn tool_result(step: JsonView, response: JsonView) -> JsonView {
    json::put(
        json::put(
            json::put(
                json::put(
                    json::put(json::empty_object(), "type"@, json::jstr("tool"@)),
                    "name"@,
                    json::jstr(crate::session::or_empty(json::text_field(step, "name"@))),
                ),
                "label"@,
                or_null(json::field(step, "label"@)),
            ),
            "result"@,
            or_null(json::field(response, "result"@)),
        ),
        "error"@,
        or_null(json::field(response, "error"@)),
    )
}

/// The arguments of a tool step.
pub open spec fn step_arguments(step: JsonView) -> JsonView {
    match json::field(step, "args"@) {
        Some(arguments) => arguments,
        None => json::empty_object(),
    }
}

/// The request of a tool step.
pub open spec fn call_request(id: u64, name: Seq<char>, arguments: JsonView) -> JsonView {
    json::put(
        json::put(
            json::put(
                json::put(json::empty_object(), "jsonrpc"@, json::jstr("2.0"@)),
                "id"@,
                json::num(id),
            ),
            "method"@,
            json::jstr("tools/call"@),
        ),
        "params"@,
        json::put(
            json::put(json::empty_object(), "name"@, json::jstr(name)),
            "arguments"@,
            arguments,
        ),
    )
}

/// Whether a failed step ends the batch: by what the step says, else by what the batch was
/// told.
pub open spec fn stops_on_error(step: JsonView, fail_fast: bool) -> bool {
    match json::text_field(step, "on_error"@) {
        Some(on_error) => on_error == "stop"@,
        None => fail_fast,
    }
}

/// Whether an answer tells of an error.
pub open spec fn failed(response: JsonView) -> bool {
    ||| (match json::field(response, "error"@) {
        Some(error) => error != JsonView::Null,
        None => false,
    })
    ||| (match json::field(response, "result"@) {
        Some(result) => json::field(result, "isError"@) == Some(JsonView::Bool(true)),
        None => false,
    })
}

/// What a batch does next, and how it stands then. After a call it stands still until the
/// answer is there.
pub open spec fn batch_next(b: BatchView) -> (BatchView, BatchActionView) {
    if b.stopped is Some {
        (
            b,
            BatchActionView::Finish {
                output: json::json_pretty(JsonView::Array(b.results)),
                outcome: OutcomeView::StoppedOnError(b.stopped->0),
            },
        )
    } else if b.index >= b.steps.len() {
        (
            b,
            BatchActionView::Finish {
                output: json::json_pretty(JsonView::Array(b.results)),
                outcome: OutcomeView::Completed,
            },
        )
    } else {
        let step = b.steps[b.index];
        match json::text_field(step, "type"@) {
            None => (
                b,
                BatchActionView::Fail {
                    message: "step missing 'type': expected "@ + STEP_SHAPE_HINT@,
                },
            ),
            Some(kind) => if kind == "sleep_ms"@ {
                match json::u64_field(step, "ms"@) {
                    None => (
                        b,
                        BatchActionView::Fail {
                            message: "sleep_ms requires 'ms' (non-negative integer)"@,
                        },
                    ),
                    Some(ms) => (
                        BatchView {
                            index: b.index + 1,
                            results: b.results.push(sleep_result(step, ms)),
                            ..b
                        },
                        BatchActionView::Sleep { ms },
                    ),
                }
            } else if kind == "tool"@ {
                match json::text_field(step, "name"@) {
                    None => (
                        b,
                        BatchActionView::Fail {
                            message: "tool step requires 'name' (the MCP tool name, e.g. take_snapshot)"@,
                        },
                    ),
                    Some(name) => if refs_fine(step_arguments(step)) {
                        (
                            BatchView { next_id: mcp::next_id_after(b.next_id), ..b },
                            BatchActionView::Call {
                                id: b.next_id,
                                line: json::json_text(
                                    call_request(
                                        b.next_id,
                                        name,
                                        resolved(step_arguments(step), b.results),
                                    ),
                                ),
                            },
                        )
                    } else {
                        (b, BatchActionView::Fail { message: "$ref must be a string"@ })
                    },
                }
            } else {
                (
                    b,
                    BatchActionView::Fail {
                        message: "unknown step type: "@ + kind + ": expected "@ + STEP_SHAPE_HINT@,
                    },
                )
            },
        }
    }
}

/// The answer in a line; null where it is none.
pub open spec fn answer_value(line: Result<JsonView, Seq<char>>) -> JsonView {
    match line {
        Ok(value) => value,
        Err(_) => JsonView::Null,
    }
}

/// How a batch stands after the answer to its call.
pub open spec fn batch_answered(b: BatchView, response: JsonView) -> BatchView {
    let step = b.steps[b.index];
    BatchView {
        index: b.index + 1,
        results: b.results.push(tool_result(step, response)),
        stopped: if failed(response) && stops_on_error(step, b.fail_fast) {
            Some(
                match json::text_field(step, "label"@) {
                    Some(label) => label,
                    None => crate::session::or_empty(json::text_field(step, "name"@)),
                },
            )
        } else {
            b.stopped
        },
        ..b
    }
}

/// The first id of a batch's calls; the one before it is for the handshake.
pub const FIRST_CALL_ID: u64 = 2;

/// A copy of a member, or null where there is none.
fn member_or_null(value: &Json, key: &str) -> (r: Json)
    ensures
        r@ == or_null(json::field(value@, key@)),
{
    match value.get(key) {
        Some(x) => x.copy(),
        None => Json::Null,
    }
}

/// The text of a member, or nothing.
fn text_or_empty(value: &Json, key: &str) -> (r: String)
    ensures
        r@ == crate::session::or_empty(json::text_field(value@, key@)),
{
    match value.get_str(key) {
        Some(s) => s.to_string(),
        None => "".to_string(),
    }
}

/// Whether an answer tells of an error.
fn has_failed(response: &Json) -> (r: bool)
    ensures
        r == failed(response@),
{
    let wrong = match response.get("error") {
        Some(error) => !error.is_null(),
        None => false,
    };
    if wrong {
        return true;
    }
    match response.get("result") {
        Some(result) => match result.get("isError") {
            Some(Json::Bool(b)) => *b,
            _ => false,
        },
        None => false,
    }
}

/// The request of a tool step.
fn call_json(id: u64, name: &str, arguments: Json) -> (r: Json)
    ensures
        r@ == call_request(id, name@, arguments@),
{
    let params = Json::object().with("name", Json::str(name)).with("arguments", arguments);
    Json::object().with("jsonrpc", Json::str("2.0")).with("id", Json::uint(id)).with(
        "method",
        Json::str("tools/call"),
    ).with("params", params)
}

impl BatchRun {
    /// A batch at its beginning.
    pub fn with_steps(steps: Vec<Json>, fail_fast: bool) -> (r: BatchRun)
        ensures
            r@ == (BatchView {
                steps: json::trees(steps@),
                index: 0,
                results: Seq::empty(),
                next_id: FIRST_CALL_ID,
                fail_fast,
                stopped: None,
            }),
    {
        let results: Vec<Json> = Vec::new();
        assert(json::trees(results@) =~= Seq::empty());
        BatchRun { steps, index: 0, results, next_id: FIRST_CALL_ID, fail_fast, stopped: None }
    }

    /// A batch of the steps in a script that was read from `path`.
    pub fn of_value(path: &str, content: Result<Json, String>, fail_fast: bool) -> (r: Result<
        BatchRun,
        String,
    >)
        ensures
            match script_steps(path@, json::result_view(content)) {
                Ok(steps) => r is Ok && r->Ok_0@ == (BatchView {
                    steps,
                    index: 0,
                    results: Seq::empty(),
                    next_id: FIRST_CALL_ID,
                    fail_fast,
                    stopped: None,
                }),
                Err(message) => r is Err && r->Err_0@ == message,
            },
    {
        match content {
            Err(error) => {
                let mut message = joined3("failed to parse ", path, ": ");
                message.append(error.as_str());
                Err(message)
            },
            Ok(Json::Array(steps)) => Ok(BatchRun::with_steps(steps, fail_fast)),
            Ok(_) => Err("script must be a JSON array of steps".to_string()),
        }
    }

    /// A batch of the steps in a script that was read from `path`.
    pub fn of_script(path: &str, content: &str, fail_fast: bool) -> (r: Result<BatchRun, String>)
        ensures
            match script_steps(path@, json::json_parse(content@)) {
                Ok(steps) => r is Ok && r->Ok_0@ == (BatchView {
                    steps,
                    index: 0,
                    results: Seq::empty(),
                    next_id: FIRST_CALL_ID,
                    fail_fast,
                    stopped: None,
                }),
                Err(message) => r is Err && r->Err_0@ == message,
            },
    {
        BatchRun::of_value(path, Json::parse(content), fail_fast)
    }

    /// What is to be done next.
    pub fn execute_batch(&mut self) -> (r: BatchAction)
        ensures
            (final(self)@, r@) == batch_next(old(self)@),
    {
        proof {
            json::lemma_trees_index(self.steps@);
        }
        match &self.stopped {
            Some(label) => {
                let outcome = BatchOutcome::StoppedOnError(label.clone());
                let output = self.output();
                return BatchAction::Finish { output, outcome };
            },
            None => {},
        }
        if self.index >= self.steps.len() {
            let output = self.output();
            return BatchAction::Finish { output, outcome: BatchOutcome::Completed };
        }
        let step = self.steps[self.index].copy();
        let kind = match step.get_str("type") {
            Some(kind) => kind,
            None => {
                return BatchAction::Fail {
                    message: joined("step missing 'type': expected ", STEP_SHAPE_HINT),
                };
            },
        };
        if same(kind, "sleep_ms") {
            return match step.get_u64("ms") {
                Some(ms) => {
                    let entry = Json::object().with("type", Json::str("sleep_ms")).with(
                        "label",
                        member_or_null(&step, "label"),
                    ).with("ms", Json::uint(ms));
                    proof {
                        json::lemma_trees_push(self.results@, entry);
                    }
                    self.results.push(entry);
                    self.index = self.index + 1;
                    BatchAction::Sleep { ms }
                },
                None => BatchAction::Fail {
                    message: "sleep_ms requires 'ms' (non-negative integer)".to_string(),
                },
            };
        }
        if same(kind, "tool") {
            let name = match step.get_str("name") {
                Some(name) => name,
                None => {
                    return BatchAction::Fail {
                        message: "tool step requires 'name' (the MCP tool name, e.g. take_snapshot)".to_string(),
                    };
                },
            };
            let template = match step.get("args") {
                Some(arguments) => arguments.copy(),
                None => Json::object(),
            };
            return match resolve_refs(template, &self.results) {
                Ok(arguments) => {
                    let id: u64 = self.next_id;
                    self.next_id = self.next_id.wrapping_add(1);
                    BatchAction::Call { id, line: call_json(id, name, arguments).text() }
                },
                Err(message) => BatchAction::Fail { message },
            };
        }
        let mut message = joined3("unknown step type: ", kind, ": expected ");
        message.append(STEP_SHAPE_HINT);
        BatchAction::Fail { message }
    }

    /// The results as they are written.
    fn output(&self) -> (r: String)
        ensures
            r@ == json::json_pretty(JsonView::Array(json::trees(self.results@))),
    {
        let mut copied: Vec<Json> = Vec::new();
        let mut i: usize = 0;
        assert(self.results@.take(0) =~= copied@);
        while i < self.results.len()
            invariant
                i <= self.results.len(),
                json::trees(copied@) == json::trees(self.results@.take(i as int)),
            decreases self.results.len() - i,
        {
            let item = self.results[i].copy();
            proof {
                json::lemma_trees_push(copied@, item);
                json::lemma_trees_push(self.results@.take(i as int), self.results@[i as int]);
                assert(self.results@.take(i as int).push(self.results@[i as int])
                    =~= self.results@.take(i + 1));
            }
            copied.push(item);
            i = i + 1;
        }
        assert(self.results@.take(i as int) =~= self.results@);
        Json::Array(copied).pretty()
    }

    /// Notes the answer to the call of the step at hand.
    pub fn on_answer(&mut self, response: &Json)
        requires
            old(self).index < old(self).steps.len(),
        ensures
            final(self)@ == batch_answered(old(self)@, response@),
    {
        proof {
            json::lemma_trees_index(self.steps@);
        }
        let step = self.steps[self.index].copy();
        let name = text_or_empty(&step, "name");
        let stops = match step.get_str("on_error") {
            Some(on_error) => same(on_error, "stop"),
            None => self.fail_fast,
        };
        let entry = Json::object().with("type", Json::str("tool")).with(
            "name",
            Json::str(name.as_str()),
        ).with("label", member_or_null(&step, "label")).with(
            "result",
            member_or_null(response, "result"),
        ).with("error", member_or_null(response, "error"));
        proof {
            json::lemma_trees_push(self.results@, entry);
        }
        self.results.push(entry);
        self.index = self.index + 1;
        if has_failed(response) && stops {
            self.stopped = Some(
                match step.get_str("label") {
                    Some(label) => label.to_string(),
                    None => name,
                },
            );
        }
    }

    /// Notes the line that answers the call of the step at hand.
    pub fn on_answer_line(&mut self, line: &str)
        requires
            old(self).index < old(self).steps.len(),
        ensures
            final(self)@ == batch_answered(old(self)@, answer_value(json::json_parse(line@))),
    {
        match Json::parse(line) {
            Ok(response) => self.on_answer(&response),
            Err(_) => self.on_answer(&Json::Null),
        }
    }
}

/// What is written for a batch that could not be run.
pub open spec fn failure_output(error: Seq<char>) -> JsonView {
    JsonView::Array(
        seq![
            json::put(
                json::put(json::empty_object(), "type"@, json::jstr("error"@)),
                "error"@,
                json::jstr(error),
            ),
        ],
    )
}

/// The end of a batch: what is still to be written where it could not be run, and whether
/// it succeeded.
pub fn run_batch(outcome: Result<BatchOutcome, String>) -> (r: (Option<String>, Result<(), String>))
    ensures
        match outcome {
            Ok(BatchOutcome::Completed) => r.0 is None && r.1 is Ok,
            Ok(BatchOutcome::StoppedOnError(label)) => r.0 is None && r.1 is Err && r.1->Err_0@
                == "scenario stopped on error at step: "@ + label@,
            Err(error) => text::opt_text(r.0) == Some(json::json_pretty(failure_output(error@)))
                && r.1 is Err && r.1->Err_0@ == error@,
        },
{
    match outcome {
        Ok(BatchOutcome::Completed) => (None, Ok(())),
        Ok(BatchOutcome::StoppedOnError(label)) => (
            None,
            Err(joined("scenario stopped on error at step: ", label.as_str())),
        ),
        Err(error) => {
            let entry = Json::object().with("type", Json::str("error")).with(
                "error",
                Json::str(error.as_str()),
            );
            let value = Json::array().and(entry);
            assert(value@ == failure_output(error@)) by {
                assert(value@->Array_0 =~= failure_output(error@)->Array_0);
            }
            (Some(value.pretty()), Err(error))
        },
    }
}

/// A batch that stopped does nothing more than write its results.
pub proof fn stopped_batches_stay_stopped(b: BatchView)
    requires
        b.stopped is Some,
    ensures
        batch_next(b).0 == b,
        batch_next(b).1 is Finish,
{
}

/// A step whose answer tells of an error ends the batch if and only if the step says so
/// or, where it says nothing, the batch was told to fail fast.
pub proof fn failures_stop_when_asked(b: BatchView, response: JsonView)
    requires
        b.stopped is None,
        failed(response),
    ensures
        batch_answered(b, response).stopped is Some <==> (match json::text_field(
            b.steps[b.index],
            "on_error"@,
        ) {
            Some(on_error) => on_error == "stop"@,
            None => b.fail_fast,
        }),
{
}

/// Every step that is done leaves one result, in the order of the steps, and none of the
/// earlier results changes; so each reference sees all earlier results.
pub proof fn results_follow_the_steps(b: BatchView, response: JsonView)
    requires
        b.results.len() == b.index,
    ensures
        batch_next(b).0.results.len() == batch_next(b).0.index,
        b.results.is_prefix_of(batch_next(b).0.results),
        batch_answered(b, response).results.len() == batch_answered(b, response).index,
        b.results.is_prefix_of(batch_answered(b, response).results),
{
}

} // verus!
