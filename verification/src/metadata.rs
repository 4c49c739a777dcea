//! Document metadata: a JSON value of which the library reads the fields of an object.

use vstd::prelude::*;
use crate::error::{CapsaError, ProcessingError, Result};
use crate::paths::{file_name, file_name_of, law_file_name};
use crate::text::{
    before_char, chars_of, copy_of, find_char, is_whitespace, law_before_char, same_text, string_of,
    take_before_char, trim, trim_end_char, trimmed, without_trailing_char,
};

verus! {

/// The value of a metadata field.
#[derive(Debug, Clone)]
pub enum MetaValue {
    /// `null`.
    Null,
    /// A string.
    Text(String),
    /// Any other value, as JSON text.
    Json(String),
}

/// The value of a field as a mathematical value.
pub enum MetaView {
    Null,
    Text(Seq<char>),
    Json(Seq<char>),
}

impl View for MetaValue {
    type V = MetaView;

    open spec fn view(&self) -> MetaView {
        match self {
            MetaValue::Null => MetaView::Null,
            MetaValue::Text(s) => MetaView::Text(s@),
            MetaValue::Json(s) => MetaView::Json(s@),
        }
    }
}

impl MetaValue {
    /// A value of its own with the same contents.
    pub fn copy(&self) -> (res: MetaValue)
        ensures
            res@ == self@,
    {
        match self {
            MetaValue::Null => MetaValue::Null,
            MetaValue::Text(s) => MetaValue::Text(s.clone()),
            MetaValue::Json(s) => MetaValue::Json(s.clone()),
        }
    }
}

/// The fields of a JSON object. Each name occurs once.
#[derive(Debug, Clone)]
pub struct Fields {
    pub entries: Vec<(String, MetaValue)>,
}

/// The map that a list of entries stands for.
pub open spec fn entries_map(entries: Seq<(String, MetaValue)>) -> Map<Seq<char>, MetaView>
    decreases entries.len(),
{
    if entries.len() == 0 {
        Map::empty()
    } else {
        entries_map(entries.drop_last()).insert(entries.last().0@, entries.last().1@)
    }
}

impl View for Fields {
    type V = Map<Seq<char>, MetaView>;

    open spec fn view(&self) -> Map<Seq<char>, MetaView> {
        entries_map(self.entries@)
    }
}

pub proof fn lemma_entries_map(entries: Seq<(String, MetaValue)>)
    requires
        forall|i: int, j: int|
            0 <= i < j < entries.len() ==> (#[trigger] entries[i]).0@ != (#[trigger] entries[j]).0@,
    ensures
        forall|i: int|
            0 <= i < entries.len() ==> entries_map(entries).dom().contains(
                (#[trigger] entries[i]).0@,
            ) && entries_map(entries)[entries[i].0@] == entries[i].1@,
        forall|k: Seq<char>| #[trigger]
            entries_map(entries).dom().contains(k) ==> exists|i: int|
                0 <= i < entries.len() && #[trigger] entries[i].0@ == k,
    decreases entries.len(),
{
    if entries.len() > 0 {
        let front = entries.drop_last();
        lemma_entries_map(front);
        assert forall|i: int| 0 <= i < entries.len() implies entries_map(entries).dom().contains(
            (#[trigger] entries[i]).0@,
        ) && entries_map(entries)[entries[i].0@] == entries[i].1@ by {
            if i < entries.len() - 1 {
                assert(front[i] == entries[i]);
                assert(entries[i].0@ != entries[entries.len() - 1].0@);
            }
        }
        assert forall|k: Seq<char>| #[trigger] entries_map(entries).dom().contains(k) implies exists|
            i: int,
        | 0 <= i < entries.len() && #[trigger] entries[i].0@ == k by {
            if k != entries.last().0@ {
                assert(entries_map(front).dom().contains(k));
                let i = choose|i: int| 0 <= i < front.len() && #[trigger] front[i].0@ == k;
                assert(entries[i].0@ == k);
            } else {
                assert(entries[entries.len() - 1].0@ == k);
            }
        }
    }
}

impl Fields {
    /// Each name occurs once.
    pub open spec fn wf(&self) -> bool {
        forall|i: int, j: int|
            0 <= i < j < self.entries@.len() ==> (#[trigger] self.entries@[i]).0@ != (
            #[trigger] self.entries@[j]).0@
    }

    /// No fields.
    pub fn new() -> (res: Fields)
        ensures
            res.wf(),
            res@ == Map::<Seq<char>, MetaView>::empty(),
    {
        Fields { entries: Vec::new() }
    }

    /// Where the entry named `key` stands.
    fn position(&self, key: &str) -> (res: Option<usize>)
        requires
            self.wf(),
        ensures
            match res {
                Some(i) => i < self.entries@.len() && self.entries@[i as int].0@ == key@
                    && self@.dom().contains(key@) && self@[key@] == self.entries@[i as int].1@,
                None => !self@.dom().contains(key@) && forall|i: int|
                    0 <= i < self.entries@.len() ==> (#[trigger] self.entries@[i]).0@ != key@,
            },
    {
        proof {
            lemma_entries_map(self.entries@);
        }
        let mut i: usize = 0;
        while i < self.entries.len()
            invariant
                self.wf(),
                i <= self.entries@.len(),
                forall|k: int| 0 <= k < i ==> (#[trigger] self.entries@[k]).0@ != key@,
            decreases self.entries@.len() - i,
        {
            if same_text(self.entries[i].0.as_str(), key) {
                proof {
                    lemma_entries_map(self.entries@);
                }
                return Some(i);
            }
            i = i + 1;
        }
        None
    }

    /// Gives the field `key` a value, in place of the one it has.
    pub fn set(&mut self, key: &str, value: MetaValue)
        requires
            old(self).wf(),
        ensures
            final(self).wf(),
            final(self)@ == old(self)@.insert(key@, value@),
    {
        let ghost before = self.entries@;
        match self.position(key) {
            Some(i) => {
                let name = copy_of(key);
                self.entries.set(i, (name, value));
                proof {
                    let after = self.entries@;
                    assert(after == before.update(i as int, (name, value)));
                    assert forall|a: int, b: int| 0 <= a < b < after.len() implies (
                    #[trigger] after[a]).0@ != (#[trigger] after[b]).0@ by {
                        assert(after[a].0@ == before[a].0@);
                        assert(after[b].0@ == before[b].0@);
                    }
                    lemma_entries_map(before);
                    lemma_entries_map(after);
                    let wanted = entries_map(before).insert(key@, value@);
                    assert forall|k: Seq<char>| #[trigger]
                        entries_map(after).dom().contains(k) == wanted.dom().contains(k) && (
                        wanted.dom().contains(k) ==> entries_map(after)[k] == wanted[k]) by {
                        lemma_updated_entry(before, i as int, (name, value), k);
                    }
                    assert(entries_map(after) =~= wanted);
                }
            },
            None => {
                self.entries.push((copy_of(key), value));
                proof {
                    assert(self.entries@.drop_last() == before);
                }
            },
        }
    }

    /// The value of the field `key`.
    pub fn get(&self, key: &str) -> (res: Option<MetaValue>)
        requires
            self.wf(),
        ensures
            match res {
                Some(v) => self@.dom().contains(key@) && self@[key@] == v@,
                None => !self@.dom().contains(key@),
            },
    {
        match self.position(key) {
            Some(i) => Some(self.entries[i].1.copy()),
            None => None,
        }
    }
}

/// Writing a value into the entry at `i` changes the value of its name alone.
proof fn lemma_updated_entry(
    before: Seq<(String, MetaValue)>,
    i: int,
    entry: (String, MetaValue),
    k: Seq<char>,
)
    requires
        0 <= i < before.len(),
        before[i].0@ == entry.0@,
        forall|a: int, b: int|
            0 <= a < b < before.len() ==> (#[trigger] before[a]).0@ != (#[trigger] before[b]).0@,
        forall|a: int, b: int|
            0 <= a < b < before.len() ==> (#[trigger] before.update(i, entry)[a]).0@ != (
            #[trigger] before.update(i, entry)[b]).0@,
    ensures
        entries_map(before.update(i, entry)).dom().contains(k) == entries_map(before).insert(
            entry.0@,
            entry.1@,
        ).dom().contains(k),
        entries_map(before).insert(entry.0@, entry.1@).dom().contains(k) ==> entries_map(
            before.update(i, entry),
        )[k] == entries_map(before).insert(entry.0@, entry.1@)[k],
{
    let after = before.update(i, entry);
    lemma_entries_map(before);
    lemma_entries_map(after);
    assert(after[i] == entry);
    if entries_map(before).dom().contains(k) {
        let j = choose|j: int| 0 <= j < before.len() && #[trigger] before[j].0@ == k;
        assert(after[j].0@ == k);
        if j != i {
            assert(after[j] == before[j]);
        }
    }
    if entries_map(after).dom().contains(k) {
        let j = choose|j: int| 0 <= j < after.len() && #[trigger] after[j].0@ == k;
        assert(before[j].0@ == k);
    }
}

/// The metadata of a document.
#[derive(Debug, Clone)]
pub enum Metadata {
    /// A JSON object.
    Object(Fields),
    /// Any other JSON value, as JSON text.
    Value(String),
}

/// Metadata as a mathematical value.
pub enum MetadataView {
    Object(Map<Seq<char>, MetaView>),
    Value(Seq<char>),
}

impl View for Metadata {
    type V = MetadataView;

    open spec fn view(&self) -> MetadataView {
        match self {
            Metadata::Object(fields) => MetadataView::Object(fields@),
            Metadata::Value(s) => MetadataView::Value(s@),
        }
    }
}

impl MetadataView {
    /// The string in the field `key`: nothing where the metadata is no object, has no such field
    /// or holds something other than a string in it.
    pub open spec fn text(self, key: Seq<char>) -> Option<Seq<char>> {
        match self {
            MetadataView::Object(m) => if m.dom().contains(key) {
                match m[key] {
                    MetaView::Text(s) => Some(s),
                    _ => None,
                }
            } else {
                None
            },
            MetadataView::Value(_) => None,
        }
    }
}

/// The metadata that `serde_json` reads from a JSON text: nothing where it refuses the text.
pub uninterp spec fn json_metadata(text: Seq<char>) -> Option<MetadataView>;

impl Metadata {
    /// Each name of an object occurs once.
    pub open spec fn wf(&self) -> bool {
        match self {
            Metadata::Object(fields) => fields.wf(),
            Metadata::Value(_) => true,
        }
    }

    /// The string in the field `key`.
    pub fn get_text(&self, key: &str) -> (res: Option<String>)
        requires
            self.wf(),
        ensures
            match res {
                Some(s) => self@.text(key@) == Some(s@),
                None => self@.text(key@) is None,
            },
    {
        match self {
            Metadata::Object(fields) => match fields.get(key) {
                Some(MetaValue::Text(s)) => Some(s),
                _ => None,
            },
            Metadata::Value(_) => None,
        }
    }

    /// Reads metadata from JSON text.
    pub fn from_json(text: &str) -> (res: Result<Metadata>)
        ensures
            match res {
                Ok(m) => m.wf() && json_metadata(text@) == Some(m@),
                Err(e) => json_metadata(text@) is None && is_metadata_error(text@, e),
            },
    {
        match read_metadata(text) {
            Ok(m) => Ok(m),
            Err(e) => Err(CapsaError::from(e)),
        }
    }
}

/// Whether `err` is an error with which `serde_json` refuses a text.
pub closed spec fn refuses_metadata(text: Seq<char>, err: serde_json::Error) -> bool {
    exists|s: &str|
        s@ == text && #[trigger] call_ensures(
            read_metadata,
            (s,),
            Err::<Metadata, serde_json::Error>(err),
        )
}

/// Whether an error reports that a text is no JSON, with what `serde_json` says of that text.
pub open spec fn is_metadata_error(text: Seq<char>, e: CapsaError) -> bool {
    e matches CapsaError::Processing(ProcessingError::Json(err)) && refuses_metadata(text, err)
}

/// `serde_json::from_str` for a `serde_json::Value`, with the fields of an object taken apart: a
/// string as it is, any other value by the text that `Value::to_string` gives. The claim is that
/// the outcome depends on the text alone, and that no name occurs twice in an object.
#[verifier::external_body]
fn read_metadata(text: &str) -> (res: core::result::Result<Metadata, serde_json::Error>)
    ensures
        match res {
            Ok(m) => m.wf() && json_metadata(text@) == Some(m@),
            Err(_) => json_metadata(text@) is None,
        },
{
    let field = |(key, value): (String, serde_json::Value)| match value {
        serde_json::Value::Null => (key, MetaValue::Null),
        serde_json::Value::String(s) => (key, MetaValue::Text(s)),
        other => (key, MetaValue::Json(other.to_string())),
    };
    Ok(match serde_json::from_str(text)? {
        serde_json::Value::Object(map) => Metadata::Object(
            Fields { entries: map.into_iter().map(field).collect() },
        ),
        other => Metadata::Value(other.to_string()),
    })
}

/// Why two pieces of metadata cannot be merged.
#[derive(Debug, Clone, Copy, PartialEq, Eq, Structural)]
pub enum MergeError {
    /// What is merged into is no object.
    Base,
    /// What is merged is no object.
    Overlay,
}

impl MergeError {
    /// The text that reports the error.
    pub open spec fn text(self) -> Seq<char> {
        match self {
            MergeError::Base => "Base metadata must be a JSON object"@,
            MergeError::Overlay => "Overlay metadata must be a JSON object"@,
        }
    }

    /// The text that reports the error.
    pub fn message(&self) -> (res: String)
        ensures
            res@ == self.text(),
    {
        match self {
            MergeError::Base => "Base metadata must be a JSON object".to_owned(),
            MergeError::Overlay => "Overlay metadata must be a JSON object".to_owned(),
        }
    }
}

proof fn lemma_merge_step(
    base: Map<Seq<char>, MetaView>,
    entries: Seq<(String, MetaValue)>,
    n: int,
)
    requires
        0 <= n < entries.len(),
    ensures
        base.union_prefer_right(entries_map(entries.take(n + 1))) == base.union_prefer_right(
            entries_map(entries.take(n)),
        ).insert(entries[n].0@, entries[n].1@),
{
    assert(entries.take(n + 1).drop_last() == entries.take(n));
    assert(base.union_prefer_right(entries_map(entries.take(n + 1)))
        =~= base.union_prefer_right(entries_map(entries.take(n))).insert(
        entries[n].0@,
        entries[n].1@,
    ));
}

/// Merges the fields of `overlay` into `base`: a field of `overlay` takes the place of the one of
/// the same name, and all other fields stay.
pub fn merge_metadata(base: &mut Metadata, overlay: Metadata) -> (res: core::result::Result<
    (),
    MergeError,
>)
    requires
        old(base).wf(),
    ensures
        final(base).wf(),
        match (old(base)@, overlay@) {
            (MetadataView::Object(b), MetadataView::Object(o)) => res is Ok && final(base)@
                == MetadataView::Object(b.union_prefer_right(o)),
            (MetadataView::Object(_), _) => res == Err::<(), MergeError>(MergeError::Overlay)
                && final(base)@ == old(base)@,
            _ => res == Err::<(), MergeError>(MergeError::Base) && final(base)@ == old(base)@,
        },
{
    match base {
        Metadata::Value(_) => Err(MergeError::Base),
        Metadata::Object(fields) => match overlay {
            Metadata::Value(_) => Err(MergeError::Overlay),
            Metadata::Object(more) => {
                let ghost start = fields@;
                let n: usize = more.entries.len();
                let mut i: usize = 0;
                proof {
                    assert(more.entries@.take(0) == Seq::<(String, MetaValue)>::empty());
                    assert(start.union_prefer_right(Map::<Seq<char>, MetaView>::empty())
                        =~= start);
                }
                while i < n
                    invariant
                        n == more.entries@.len(),
                        i <= n,
                        fields.wf(),
                        fields@ == start.union_prefer_right(
                            entries_map(more.entries@.take(i as int)),
                        ),
                    decreases n - i,
                {
                    let value = more.entries[i].1.copy();
                    fields.set(more.entries[i].0.as_str(), value);
                    proof {
                        lemma_merge_step(start, more.entries@, i as int);
                    }
                    i = i + 1;
                }
                assert(more.entries@.take(n as int) == more.entries@);
                Ok(())
            },
        },
    }
}

/// The name at the end of a path or URL: without what follows a `?`, and without slashes and
/// white space at its ends. There is none where nothing is left.
pub open spec fn base_name(raw: Seq<char>) -> Option<Seq<char>> {
    match file_name_of(before_char(without_trailing_char(trimmed(raw), '/'), '?')) {
        None => None,
        Some(name) => if trimmed(name).len() == 0 {
            None
        } else {
            Some(trimmed(name))
        },
    }
}

/// A field that can name a document: its string without white space around it, unless it is empty
/// or `Unknown`.
pub open spec fn naming_field(metadata: MetadataView, key: Seq<char>) -> Option<Seq<char>> {
    match metadata.text(key) {
        None => None,
        Some(s) => if trimmed(s).len() == 0 || trimmed(s) == "Unknown"@ {
            None
        } else {
            Some(trimmed(s))
        },
    }
}

/// The part of `s` behind the first `c`.
pub open spec fn after_char(s: Seq<char>, c: char) -> Option<Seq<char>>
    decreases s.len(),
{
    if s.len() == 0 {
        None
    } else if s[0] == c {
        Some(s.drop_first())
    } else {
        after_char(s.drop_first(), c)
    }
}

/// The first of the options that holds something.
pub open spec fn first_of(a: Option<Seq<char>>, b: Option<Seq<char>>) -> Option<Seq<char>> {
    if a is Some {
        a
    } else {
        b
    }
}

/// The base name of an optional text.
pub open spec fn base_name_within(raw: Option<Seq<char>>) -> Option<Seq<char>> {
    match raw {
        Some(s) => base_name(s),
        None => None,
    }
}

/// The name under which a document is shown: the first of its naming fields, else the name at the
/// end of its path, else that of its source behind the first `:`, else that of its source, else
/// its source.
pub open spec fn display_name(metadata: MetadataView, source: Seq<char>) -> Seq<char> {
    let named = first_of(
        naming_field(metadata, "drive_name"@),
        first_of(naming_field(metadata, "title"@), naming_field(metadata, "name"@)),
    );
    let located = first_of(
        base_name_within(metadata.text("path"@)),
        first_of(base_name_within(after_char(source, ':')), base_name(source)),
    );
    match first_of(named, located) {
        Some(name) => name,
        None => source,
    }
}

/// The name at the end of a path or URL.
pub fn basename(raw: &str) -> (res: Option<String>)
    ensures
        match res {
            Some(name) => base_name(raw@) == Some(name@),
            None => base_name(raw@) is None,
        },
{
    let bare = trim_end_char(trim(raw).as_str(), '/');
    let path = take_before_char(bare.as_str(), '?');
    match file_name(path.as_str()) {
        None => None,
        Some(name) => {
            let short = trim(name.as_str());
            if short.as_str().is_empty() {
                None
            } else {
                Some(short)
            }
        },
    }
}

proof fn lemma_after_char(s: Seq<char>, c: char, n: int)
    requires
        0 <= n <= s.len(),
        forall|i: int| 0 <= i < n ==> s[i] != c,
        n < s.len() ==> s[n] == c,
    ensures
        after_char(s, c) == (if n < s.len() {
            Some(s.subrange(n + 1, s.len() as int))
        } else {
            None
        }),
    decreases n,
{
    if n > 0 {
        assert forall|i: int| 0 <= i < n - 1 implies s.drop_first()[i] != c by {
            assert(s[i + 1] != c);
        }
        lemma_after_char(s.drop_first(), c, n - 1);
        if n < s.len() {
            assert(s.drop_first().subrange(n, s.len() - 1) == s.subrange(n + 1, s.len() as int));
        }
    } else if s.len() > 0 {
        assert(s.drop_first() == s.subrange(1, s.len() as int));
    }
}

/// The part of `s` behind the first `c`.
pub fn take_after_char(s: &str, c: char) -> (res: Option<String>)
    ensures
        match res {
            Some(rest) => after_char(s@, c) == Some(rest@),
            None => after_char(s@, c) is None,
        },
{
    let chars = chars_of(s);
    let n: usize = chars.len();
    match find_char(&chars, c, 0) {
        Some(i) => {
            proof {
                lemma_after_char(s@, c, i as int);
            }
            Some(string_of(&chars, i + 1, n))
        },
        None => {
            proof {
                lemma_after_char(s@, c, n as int);
            }
            None
        },
    }
}

/// The naming field `key`.
fn find_naming_field(metadata: &Metadata, key: &str) -> (res: Option<String>)
    requires
        metadata.wf(),
    ensures
        match res {
            Some(name) => naming_field(metadata@, key@) == Some(name@),
            None => naming_field(metadata@, key@) is None,
        },
{
    match metadata.get_text(key) {
        None => None,
        Some(s) => {
            let short = trim(s.as_str());
            if short.as_str().is_empty() || same_text(short.as_str(), "Unknown") {
                None
            } else {
                Some(short)
            }
        },
    }
}

/// The name under which a document is shown.
pub fn display_name_from_metadata(metadata: &Metadata, source: &str) -> (res: String)
    requires
        metadata.wf(),
    ensures
        res@ == display_name(metadata@, source@),
{
    if let Some(name) = find_naming_field(metadata, "drive_name") {
        return name;
    }
    if let Some(name) = find_naming_field(metadata, "title") {
        return name;
    }
    if let Some(name) = find_naming_field(metadata, "name") {
        return name;
    }
    if let Some(path) = metadata.get_text("path") {
        if let Some(name) = basename(path.as_str()) {
            return name;
        }
    }
    if let Some(raw) = take_after_char(source, ':') {
        if let Some(name) = basename(raw.as_str()) {
            return name;
        }
    }
    match basename(source) {
        Some(name) => name,
        None => copy_of(source),
    }
}

/// Whether a text can name a document: something is left of it without the white space around it,
/// and that is not `Unknown`.
pub open spec fn can_name(text: Option<Seq<char>>) -> bool {
    text is Some && trimmed(text->0).len() > 0 && trimmed(text->0) != "Unknown"@
}

/// The name under which a document is shown: its `drive_name`, else its `title`, else its `name`,
/// where they can name it; else the name at the end of its `path`; else that of its source behind
/// the first `:`; else that of its source; else its source.
pub proof fn law_display_name(metadata: MetadataView, source: Seq<char>)
    ensures
        ({
            let drive = metadata.text("drive_name"@);
            let title = metadata.text("title"@);
            let name = metadata.text("name"@);
            let path = metadata.text("path"@);
            let rest = after_char(source, ':');
            let shown = display_name(metadata, source);
            if can_name(drive) {
                shown == trimmed(drive->0)
            } else if can_name(title) {
                shown == trimmed(title->0)
            } else if can_name(name) {
                shown == trimmed(name->0)
            } else if path is Some && base_name(path->0) is Some {
                Some(shown) == base_name(path->0)
            } else if rest is Some && base_name(rest->0) is Some {
                Some(shown) == base_name(rest->0)
            } else if base_name(source) is Some {
                Some(shown) == base_name(source)
            } else {
                shown == source
            }
        }),
{
}

/// What stands behind the first `c` of a text.
pub proof fn law_after_char(a: Seq<char>, c: char, b: Seq<char>)
    requires
        !a.contains(c),
    ensures
        after_char(a + seq![c] + b, c) == Some(b),
        after_char(a, c) is None,
{
    let s = a + seq![c] + b;
    assert forall|i: int| 0 <= i < a.len() implies s[i] != c && a[i] != c by {
        assert(a.contains(a[i]));
    }
    lemma_after_char(s, c, a.len() as int);
    lemma_after_char(a, c, a.len() as int);
    assert(s.subrange((a.len() + 1) as int, s.len() as int) =~= b);
}

proof fn lemma_nothing_to_trim(s: Seq<char>)
    requires
        s.len() > 0,
        !is_whitespace(s[0]),
        !is_whitespace(s.last()),
    ensures
        trimmed(s) == s,
{
}

/// The name at the end of a path or URL is its last component: without what follows a `?` and
/// without slashes at the end.
pub proof fn law_base_name(dir: Seq<char>, name: Seq<char>, query: Seq<char>)
    requires
        name.len() > 0,
        !name.contains('/'),
        !name.contains('?'),
        name != seq!['.'],
        name != seq!['.', '.'],
        !is_whitespace(name[0]),
        !is_whitespace(name.last()),
        !dir.contains('?'),
        dir.len() > 0 ==> !is_whitespace(dir[0]),
        query.len() == 0 || (query[0] == '?' && query.last() != '/' && !is_whitespace(
            query.last(),
        )),
    ensures
        base_name(dir + seq!['/'] + name + query) == Some(name),
        query.len() == 0 ==> base_name(dir + seq!['/'] + name + seq!['/']) == Some(name),
{
    let p = dir + seq!['/'] + name;
    let raw = p + query;
    assert(p.last() == name.last());
    assert(name.last() != '/') by {
        assert(name.contains(name.last()));
    }
    assert(!p.contains('?')) by {
        if p.contains('?') {
            let i = choose|i: int| 0 <= i < p.len() && p[i] == '?';
            if i < dir.len() {
                assert(dir.contains(dir[i]));
            } else if i > dir.len() {
                assert(name.contains(name[i - dir.len() - 1]));
            }
        }
    }
    assert(!is_whitespace('/'));
    assert(!is_whitespace(p[0])) by {
        if dir.len() > 0 {
            assert(p[0] == dir[0]);
        } else {
            assert(p[0] == '/');
        }
    }
    assert(raw[0] == p[0]);
    assert(raw.last() == if query.len() > 0 {
        query.last()
    } else {
        name.last()
    });
    lemma_nothing_to_trim(raw);
    assert(without_trailing_char(raw, '/') == raw);
    law_before_char(p, '?', query);
    law_file_name(dir, name);
    lemma_nothing_to_trim(name);
    if query.len() == 0 {
        let slashed = p + seq!['/'];
        lemma_nothing_to_trim(slashed);
        assert(slashed.drop_last() =~= p);
        assert(without_trailing_char(p, '/') == p);
        assert(without_trailing_char(slashed, '/') == p);
        law_before_char(p, '?', Seq::empty());
        assert(p + Seq::<char>::empty() =~= p);
    }
}

/// A document whose metadata names it in no way is shown by the file name in its source, which
/// stands behind a scheme.
pub proof fn law_named_by_source(
    metadata: MetadataView,
    scheme: Seq<char>,
    dir: Seq<char>,
    name: Seq<char>,
)
    requires
        !can_name(metadata.text("drive_name"@)),
        !can_name(metadata.text("title"@)),
        !can_name(metadata.text("name"@)),
        metadata.text("path"@) is None,
        !scheme.contains(':'),
        name.len() > 0,
        !name.contains('/'),
        !name.contains('?'),
        name != seq!['.'],
        name != seq!['.', '.'],
        !is_whitespace(name[0]),
        !is_whitespace(name.last()),
        !dir.contains('?'),
        dir.len() > 0 ==> !is_whitespace(dir[0]),
    ensures
        display_name(metadata, scheme + seq![':'] + (dir + seq!['/'] + name)) == name,
{
    let rest = dir + seq!['/'] + name;
    law_display_name(metadata, scheme + seq![':'] + rest);
    law_after_char(scheme, ':', rest);
    law_base_name(dir, name, Seq::empty());
    assert(rest + Seq::<char>::empty() =~= rest);
}

/// A document is shown by its `drive_name`, or else by its `title`, or else by its `name`, without
/// the white space around it.
pub proof fn law_document_is_named(
    metadata: &Metadata,
    source: &str,
    drive: Option<Seq<char>>,
    title: Option<Seq<char>>,
    name: Option<Seq<char>>,
    res: String,
)
    requires
        metadata.wf(),
        call_ensures(display_name_from_metadata, (metadata, source), res),
        metadata@.text("drive_name"@) == drive,
        metadata@.text("title"@) == title,
        metadata@.text("name"@) == name,
    ensures
        can_name(drive) ==> res@ == trimmed(drive->0),
        !can_name(drive) && can_name(title) ==> res@ == trimmed(title->0),
        !can_name(drive) && !can_name(title) && can_name(name) ==> res@ == trimmed(name->0),
{
    law_display_name(metadata@, source@);
}

/// A document without a name of its own is shown by the file name in its path, or else by that in
/// its source.
pub proof fn law_document_is_located(
    metadata: &Metadata,
    source: &str,
    scheme: Seq<char>,
    dir: Seq<char>,
    name: Seq<char>,
    res: String,
)
    requires
        metadata.wf(),
        call_ensures(display_name_from_metadata, (metadata, source), res),
        !can_name(metadata@.text("drive_name"@)),
        !can_name(metadata@.text("title"@)),
        !can_name(metadata@.text("name"@)),
        !scheme.contains(':'),
        ({
            let path = dir + seq!['/'] + name;
            ||| metadata@.text("path"@) == Some(path)
            ||| metadata@.text("path"@) is None && source@ == scheme + seq![':'] + path
        }),
        name.len() > 0,
        !name.contains('/'),
        !name.contains('?'),
        name != seq!['.'],
        name != seq!['.', '.'],
        !is_whitespace(name[0]),
        !is_whitespace(name.last()),
        !dir.contains('?'),
        dir.len() > 0 ==> !is_whitespace(dir[0]),
    ensures
        res@ == name,
{
    let path = dir + seq!['/'] + name;
    law_display_name(metadata@, source@);
    law_base_name(dir, name, Seq::empty());
    assert(path + Seq::<char>::empty() =~= path);
    law_after_char(scheme, ':', path);
}

/// The text of a field is there exactly where the metadata is an object that holds a text under the
/// key.
pub proof fn law_text_of_field(
    metadata: &Metadata,
    m: Map<Seq<char>, MetaView>,
    key: &str,
    res: Option<String>,
)
    requires
        metadata.wf(),
        metadata@ == MetadataView::Object(m),
        call_ensures(Metadata::get_text, (metadata, key), res),
    ensures
        res matches Some(s) ==> m.dom().contains(key@) && m[key@] == MetaView::Text(s@),
        res is None ==> !(m.dom().contains(key@) && m[key@] is Text),
{
}

/// The name of a file behind a directory, or behind a URL with a query.
pub proof fn law_basename_call(
    raw: &str,
    dir: Seq<char>,
    name: Seq<char>,
    query: Seq<char>,
    res: Option<String>,
)
    requires
        call_ensures(basename, (raw,), res),
        raw@ == dir + seq!['/'] + name + query,
        name.len() > 0,
        !name.contains('/'),
        !name.contains('?'),
        name != seq!['.'],
        name != seq!['.', '.'],
        !is_whitespace(name[0]),
        !is_whitespace(name.last()),
        !dir.contains('?'),
        dir.len() > 0 ==> !is_whitespace(dir[0]),
        query.len() == 0 || (query[0] == '?' && query.last() != '/' && !is_whitespace(
            query.last(),
        )),
    ensures
        res matches Some(s) && s@ == name,
{
    law_base_name(dir, name, query);
}

/// In merged metadata the overlay wins.
pub proof fn law_overlay_wins(
    base: &mut Metadata,
    overlay: Metadata,
    b: Map<Seq<char>, MetaView>,
    o: Map<Seq<char>, MetaView>,
    key: Seq<char>,
    res: core::result::Result<(), MergeError>,
)
    requires
        old(base).wf(),
        call_ensures(merge_metadata, (base, overlay), res),
        old(base)@ == MetadataView::Object(b),
        overlay@ == MetadataView::Object(o),
    ensures
        res is Ok,
        final(base)@ matches MetadataView::Object(m) && {
            &&& m.dom().contains(key) <==> b.dom().contains(key) || o.dom().contains(key)
            &&& o.dom().contains(key) ==> m[key] == o[key]
            &&& b.dom().contains(key) && !o.dom().contains(key) ==> m[key] == b[key]
        },
{
}

/// Metadata that is no object is not merged: it stays as it is, and the error says which of the two
/// it was.
pub proof fn law_merge_is_refused(
    base: &mut Metadata,
    overlay: Metadata,
    e: MergeError,
    text: String,
    res: core::result::Result<(), MergeError>,
)
    requires
        old(base).wf(),
        call_ensures(merge_metadata, (base, overlay), res),
        old(base)@ is Value || overlay@ is Value,
        res == Err::<(), MergeError>(e),
        call_ensures(MergeError::message, (&e,), text),
    ensures
        final(base)@ == old(base)@,
        old(base)@ is Value ==> text@ == "Base metadata must be a JSON object"@,
        old(base)@ is Object ==> text@ == "Overlay metadata must be a JSON object"@,
{
}

/// A field that is set is found under its key. The others stay.
pub proof fn law_field_is_set(
    fields: &mut Fields,
    key: &str,
    value: MetaValue,
    other: &str,
    found: Option<MetaValue>,
    found_other: Option<MetaValue>,
)
    requires
        old(fields).wf(),
        call_ensures(Fields::set, (fields, key, value), ()),
        call_ensures(Fields::get, (&*final(fields), key), found),
        call_ensures(Fields::get, (&*final(fields), other), found_other),
        final(fields).wf(),
        other@ != key@,
    ensures
        found matches Some(v) && v@ == value@,
        found_other is Some <==> old(fields)@.dom().contains(other@),
        found_other matches Some(v) ==> v@ == old(fields)@[other@],
{
}

} // verus!
