//! The YMM4 project model (`.ymmp`): timelines, items and their open-ended
//! field maps, and the UTF-8 byte-order mark that frames the file's text.
//!
//! Field values are JSON values kept as they were read, so that a project
//! written back loses nothing it was not asked to change.

use vstd::prelude::*;

verus! {

/// JSON values of `serde_json`, carried through the model without being inspected.
#[verifier::external_type_specification]
#[verifier::external_body]
pub struct ExJsonValue(serde_json::Value);

/// No two entries share a key.
pub open spec fn keys_distinct(s: Seq<(String, serde_json::Value)>) -> bool {
    forall|i: int, j: int| 0 <= i < s.len() && 0 <= j < s.len() && i != j ==> s[i].0@ != s[j].0@
}

/// The map built by inserting the entries in order, a later entry of a key
/// replacing an earlier one.
pub open spec fn entries_map(s: Seq<(String, serde_json::Value)>) -> Map<Seq<char>, serde_json::Value>
    decreases s.len(),
{
    if s.len() == 0 {
        Map::empty()
    } else {
        entries_map(s.drop_last()).insert(s.last().0@, s.last().1)
    }
}

proof fn lemma_entries_lookup(s: Seq<(String, serde_json::Value)>, i: int)
    requires
        keys_distinct(s),
        0 <= i < s.len(),
    ensures
        entries_map(s).contains_key(s[i].0@),
        entries_map(s)[s[i].0@] == s[i].1,
    decreases s.len(),
{
    if i < s.len() - 1 {
        lemma_entries_lookup(s.drop_last(), i);
        assert(s.drop_last()[i] == s[i]);
    }
}

proof fn lemma_entries_absent(s: Seq<(String, serde_json::Value)>, k: Seq<char>)
    requires
        forall|i: int| 0 <= i < s.len() ==> s[i].0@ != k,
    ensures
        !entries_map(s).contains_key(k),
    decreases s.len(),
{
    if s.len() > 0 {
        lemma_entries_absent(s.drop_last(), k);
        assert(s.last().0@ != k);
    }
}

proof fn lemma_entries_update(s: Seq<(String, serde_json::Value)>, i: int, e: (String, serde_json::Value))
    requires
        keys_distinct(s),
        0 <= i < s.len(),
        e.0@ == s[i].0@,
    ensures
        entries_map(s.update(i, e)) == entries_map(s).insert(e.0@, e.1),
    decreases s.len(),
{
    let u = s.update(i, e);
    if i == s.len() - 1 {
        assert(u.drop_last() =~= s.drop_last());
        assert(entries_map(u) =~= entries_map(s).insert(e.0@, e.1));
    } else {
        assert(u.drop_last() =~= s.drop_last().update(i, e));
        lemma_entries_update(s.drop_last(), i, e);
        assert(s.last().0@ != e.0@);
        assert(entries_map(u) =~= entries_map(s).insert(e.0@, e.1));
    }
}

/// Position of the entry with key `key` in `entries`.
fn position_of(entries: &Vec<(String, serde_json::Value)>, key: &str) -> (res: Option<usize>)
    ensures
        match res {
            Some(i) => i < entries@.len() && entries@[i as int].0@ == key@,
            None => forall|i: int| 0 <= i < entries@.len() ==> entries@[i].0@ != key@,
        },
{
    let mut i: usize = 0;
    while i < entries.len()
        invariant
            i <= entries@.len(),
            forall|j: int| 0 <= j < i ==> entries@[j].0@ != key@,
        decreases entries@.len() - i,
    {
        if crate::text::text_eq(entries[i].0.as_str(), key) {
            return Some(i);
        }
        i = i + 1;
    }
    None
}

/// The named fields of a project object that the model does not spell out,
/// each key present once.
pub struct FieldMap {
    entries: Vec<(String, serde_json::Value)>,
}

impl View for FieldMap {
    type V = Map<Seq<char>, serde_json::Value>;

    closed spec fn view(&self) -> Map<Seq<char>, serde_json::Value> {
        entries_map(self.entries@)
    }
}

impl FieldMap {
    #[verifier::type_invariant]
    closed spec fn wf(self) -> bool {
        keys_distinct(self.entries@)
    }

    /// An empty field map.
    pub fn new() -> (res: Self)
        ensures
            res@ == Map::<Seq<char>, serde_json::Value>::empty(),
    {
        FieldMap { entries: Vec::new() }
    }

    /// Whether a field named `key` is present.
    pub fn contains_key(&self, key: &str) -> (res: bool)
        ensures
            res == self@.contains_key(key@),
    {
        proof { use_type_invariant(self); }
        match position_of(&self.entries, key) {
            Some(i) => {
                proof { lemma_entries_lookup(self.entries@, i as int); }
                true
            },
            None => {
                proof { lemma_entries_absent(self.entries@, key@); }
                false
            },
        }
    }

    /// The value of the field named `key`, if present.
    pub fn get(&self, key: &str) -> (res: Option<&serde_json::Value>)
        ensures
            match res {
                Some(v) => self@.contains_key(key@) && *v == self@[key@],
                None => !self@.contains_key(key@),
            },
    {
        proof { use_type_invariant(self); }
        match position_of(&self.entries, key) {
            Some(i) => {
                proof { lemma_entries_lookup(self.entries@, i as int); }
                Some(&self.entries[i].1)
            },
            None => {
                proof { lemma_entries_absent(self.entries@, key@); }
                None
            },
        }
    }

    /// Sets the field `key` to `value`, adding it where it is absent, and
    /// returns the value it replaced.
    pub fn insert(&mut self, key: String, value: serde_json::Value) -> (res: Option<serde_json::Value>)
        ensures
            final(self)@ == old(self)@.insert(key@, value),
            res == (if old(self)@.contains_key(key@) {
                Some(old(self)@[key@])
            } else {
                None::<serde_json::Value>
            }),
    {
        proof { use_type_invariant(&*self); }
        let ghost s = self.entries@;
        let ghost k = key@;
        let mut entries: Vec<(String, serde_json::Value)> = Vec::new();
        std::mem::swap(&mut entries, &mut self.entries);
        match position_of(&entries, key.as_str()) {
            Some(i) => {
                proof { lemma_entries_lookup(s, i as int); }
                let (old_key, old_value) = entries.remove(i);
                entries.insert(i, (old_key, value));
                proof {
                    let e = entries@[i as int];
                    assert(entries@ =~= s.update(i as int, e));
                    lemma_entries_update(s, i as int, e);
                    assert(keys_distinct(entries@));
                }
                self.entries = entries;
                Some(old_value)
            },
            None => {
                proof { lemma_entries_absent(s, k); }
                entries.push((key, value));
                proof {
                    assert(entries@.drop_last() =~= s);
                    assert(keys_distinct(entries@));
                }
                self.entries = entries;
                None
            },
        }
    }

    /// Builds a field map from entries in document order; where a key occurs
    /// more than once, its last entry wins.
    pub fn from_entries(entries: Vec<(String, serde_json::Value)>) -> (res: Self)
        ensures
            res@ == entries_map(entries@),
    {
        let ghost all = entries@;
        let total = entries.len();
        let mut rest = entries;
        let mut res = FieldMap::new();
        let mut n: usize = 0;
        while rest.len() > 0
            invariant
                n <= all.len(),
                all.len() == total,
                rest@ == all.skip(n as int),
                rest@.len() + n == all.len(),
                res@ == entries_map(all.take(n as int)),
            decreases rest@.len(),
        {
            let (k, v) = rest.remove(0);
            let ghost e = (k, v);
            assert(e == all[n as int]);
            res.insert(k, v);
            proof {
                assert(all.take(n + 1).drop_last() =~= all.take(n as int));
                assert(all.take(n + 1).last() == all[n as int]);
            }
            n = n + 1;
            assert(rest@ =~= all.skip(n as int));
        }
        assert(all.take(n as int) =~= all);
        res
    }

    /// The entries of the map, each key once.
    pub fn into_entries(self) -> (res: Vec<(String, serde_json::Value)>)
        ensures
            keys_distinct(res@),
            entries_map(res@) == self@,
    {
        proof { use_type_invariant(&self); }
        self.entries
    }
}

/// Video settings of a timeline.
#[derive(Debug)]
pub struct VideoInfo {
    /// Frame rate.
    pub fps: u32,
    /// Audio sampling rate.
    pub hz: u32,
    /// Frame width (px).
    pub width: u32,
    /// Frame height (px).
    pub height: u32,
    /// Background colour, as the file writes it.
    pub background_color: String,
}

/// One item placed on a timeline (video, image, text, ...).
pub struct Item {
    /// The item's `$type`.
    pub item_type: String,
    /// First frame on the timeline.
    pub frame: i64,
    /// Layer it is placed on.
    pub layer: i64,
    /// Length in frames.
    pub length: i64,
    /// Every other field (`X`, `Y`, `Zoom`, `Rotation`, `Opacity`, ...).
    pub fields: FieldMap,
}

impl Item {
    /// The value of the field named `key`, if the item has one.
    pub fn field(&self, key: &str) -> (res: Option<&serde_json::Value>)
        ensures
            match res {
                Some(v) => self.fields@.contains_key(key@) && *v == self.fields@[key@],
                None => !self.fields@.contains_key(key@),
            },
    {
        self.fields.get(key)
    }

    /// Sets the field `key` to `value`, adding it where it is absent; the
    /// item's other fields and header are kept.
    pub fn set_field(&mut self, key: &str, value: serde_json::Value)
        ensures
            final(self).fields@ == old(self).fields@.insert(key@, value),
            final(self).item_type == old(self).item_type,
            final(self).frame == old(self).frame,
            final(self).layer == old(self).layer,
            final(self).length == old(self).length,
    {
        self.fields.insert(key.to_owned(), value);
    }
}

/// One timeline of a project.
pub struct Timeline {
    /// Timeline identifier.
    pub id: String,
    /// Display name.
    pub name: String,
    /// Video settings.
    pub video_info: VideoInfo,
    /// Items placed on the timeline.
    pub items: Vec<Item>,
    /// Every other field, kept so that writing back loses nothing.
    pub extra: FieldMap,
}

/// A whole YMM4 project.
pub struct YmmpProject {
    /// Path the project was last saved to, as the file records it.
    pub file_path: Option<String>,
    /// The project's timelines.
    pub timelines: Vec<Timeline>,
    /// Every other top-level field, kept so that writing back loses nothing.
    pub extra: FieldMap,
}

/// Whether item `item_index` of timeline `timeline_index` exists.
pub open spec fn has_item(p: YmmpProject, timeline_index: int, item_index: int) -> bool {
    0 <= timeline_index < p.timelines@.len() && 0 <= item_index < p.timelines@[timeline_index].items@.len()
}

/// `after` is `before` with item `item_index` of timeline `timeline_index`
/// replaced by `item`, and nothing else changed.
pub open spec fn replaces_item(before: YmmpProject, after: YmmpProject, timeline_index: int, item_index: int, item: Item) -> bool {
    &&& after.file_path == before.file_path
    &&& after.extra == before.extra
    &&& after.timelines@.len() == before.timelines@.len()
    &&& forall|j: int| 0 <= j < before.timelines@.len() && j != timeline_index
        ==> #[trigger] after.timelines@[j] == before.timelines@[j]
    &&& after.timelines@[timeline_index].id == before.timelines@[timeline_index].id
    &&& after.timelines@[timeline_index].name == before.timelines@[timeline_index].name
    &&& after.timelines@[timeline_index].video_info == before.timelines@[timeline_index].video_info
    &&& after.timelines@[timeline_index].extra == before.timelines@[timeline_index].extra
    &&& after.timelines@[timeline_index].items@ == before.timelines@[timeline_index].items@.update(item_index, item)
}

impl YmmpProject {
    /// The item at `item_index` of timeline `timeline_index`, for editing;
    /// `None` where either index is out of range. Whatever is done to the item
    /// is all that changes in the project.
    pub fn item_mut(&mut self, timeline_index: usize, item_index: usize) -> (res: Option<&mut Item>)
        ensures
            res is Some <==> has_item(*old(self), timeline_index as int, item_index as int),
            res is None ==> *final(self) == *old(self),
            res matches Some(r) ==> {
                &&& *r == old(self).timelines@[timeline_index as int].items@[item_index as int]
                &&& replaces_item(*old(self), *final(self), timeline_index as int, item_index as int, *final(r))
            },
    {
        if timeline_index < self.timelines.len() && item_index < self.timelines[timeline_index].items.len() {
            Some(&mut self.timelines[timeline_index].items[item_index])
        } else {
            None
        }
    }
}

/// The text of a JSON value that is a string; `None` for any other kind of value.
pub uninterp spec fn json_str_of(v: serde_json::Value) -> Option<Seq<char>>;

/// The text of a JSON string value; `None` for any other kind of value.
/// Calls `serde_json::Value::as_str`, whose result depends on the value alone;
/// the contract names it `json_str_of` of the value.
#[verifier::external_body]
fn json_text(v: &serde_json::Value) -> (res: Option<String>)
    ensures
        crate::format::opt_text(res) == json_str_of(*v),
{
    v.as_str().map(|t| t.to_string())
}

/// Whether item `k` of timeline `t` carries a `Remark` field.
pub open spec fn has_remark_field(p: YmmpProject, t: int, k: int) -> bool {
    p.timelines@[t].items@[k].fields@.contains_key("Remark"@)
}

/// The texts of optional strings.
pub open spec fn opt_texts(s: Seq<Option<String>>) -> Seq<Option<Seq<char>>> {
    s.map_values(|o: Option<String>| crate::format::opt_text(o))
}

/// `k` is the first position whose remark text is `remark`.
pub open spec fn is_first_match(remarks: Seq<Option<Seq<char>>>, remark: Seq<char>, k: int) -> bool {
    &&& 0 <= k < remarks.len()
    &&& remarks[k] == Some(remark)
    &&& forall|j: int| 0 <= j < k ==> remarks[j] != Some(remark)
}

/// The remark text of item `k` of timeline `t`: the text of its `Remark`
/// value where it has one that is a JSON string.
pub open spec fn remark_text(p: YmmpProject, t: int, k: int) -> Option<Seq<char>> {
    if has_remark_field(p, t, k) {
        json_str_of(p.timelines@[t].items@[k].fields@["Remark"@])
    } else {
        None
    }
}

/// Item `k` is the first of timeline `t` whose remark text is `remark`.
pub open spec fn is_first_remark(p: YmmpProject, t: int, k: int, remark: Seq<char>) -> bool {
    &&& 0 <= k < p.timelines@[t].items@.len()
    &&& remark_text(p, t, k) == Some(remark)
    &&& forall|j: int| 0 <= j < k ==> remark_text(p, t, j) != Some(remark)
}

/// The position of the first remark text equal to `remark`, given the remark
/// text of each item (`None` for an item without a textual remark).
pub fn first_remark_match(remarks: &Vec<Option<String>>, remark: &str) -> (res: Option<usize>)
    ensures
        match res {
            Some(k) => is_first_match(opt_texts(remarks@), remark@, k as int),
            None => forall|k: int| 0 <= k < remarks@.len() ==> #[trigger] opt_texts(remarks@)[k] != Some(remark@),
        },
{
    let ghost texts = opt_texts(remarks@);
    let mut k: usize = 0;
    while k < remarks.len()
        invariant
            k <= remarks@.len(),
            texts == opt_texts(remarks@),
            forall|j: int| 0 <= j < k ==> texts[j] != Some(remark@),
        decreases remarks@.len() - k,
    {
        match &remarks[k] {
            Some(t) => {
                if crate::text::text_eq(t.as_str(), remark) {
                    assert(texts[k as int] == Some(remark@));
                    return Some(k);
                }
                assert(texts[k as int] == Some(t@));
            },
            None => {
                assert(texts[k as int] is None);
            },
        }
        k = k + 1;
    }
    None
}

impl YmmpProject {
    /// The first item of timeline `timeline_index` whose `Remark` (the item's
    /// name in the editor) is the text `remark`, for editing; `None` where the
    /// timeline does not exist or no item's remark matches. Whatever is done to
    /// the item is all that changes in the project.
    pub fn item_by_remark_mut(&mut self, timeline_index: usize, remark: &str) -> (res: Option<&mut Item>)
        ensures
            timeline_index >= old(self).timelines@.len() ==> res is None,
            timeline_index < old(self).timelines@.len() ==> (res is Some <==> exists|k: int|
                0 <= k < old(self).timelines@[timeline_index as int].items@.len()
                && #[trigger] remark_text(*old(self), timeline_index as int, k) == Some(remark@)),
            res is None ==> *final(self) == *old(self),
            res matches Some(r) ==> exists|k: int| {
                &&& #[trigger] is_first_remark(*old(self), timeline_index as int, k, remark@)
                &&& has_item(*old(self), timeline_index as int, k)
                &&& *r == old(self).timelines@[timeline_index as int].items@[k]
                &&& replaces_item(*old(self), *final(self), timeline_index as int, k, *final(r))
            },
    {
        if timeline_index >= self.timelines.len() {
            return None;
        }
        let n = self.timelines[timeline_index].items.len();
        let mut remarks: Vec<Option<String>> = Vec::new();
        let mut k: usize = 0;
        while k < n
            invariant
                timeline_index < self.timelines@.len(),
                n == self.timelines@[timeline_index as int].items@.len(),
                k <= n,
                remarks@.len() == k,
                forall|j: int| 0 <= j < k ==> crate::format::opt_text(#[trigger] remarks@[j])
                    == remark_text(*self, timeline_index as int, j),
            decreases n - k,
        {
            let text = match self.timelines[timeline_index].items[k].fields.get("Remark") {
                Some(v) => json_text(v),
                None => None,
            };
            assert(crate::format::opt_text(text) == remark_text(*self, timeline_index as int, k as int));
            remarks.push(text);
            k = k + 1;
        }
        let ghost texts = opt_texts(remarks@);
        assert forall|j: int| 0 <= j < n implies #[trigger] texts[j] == remark_text(*self, timeline_index as int, j) by {
            assert(texts[j] == crate::format::opt_text(remarks@[j]));
        }
        match first_remark_match(&remarks, remark) {
            Some(f) => {
                proof {
                    assert(texts[f as int] == Some(remark@));
                    assert(is_first_remark(*self, timeline_index as int, f as int, remark@)) by {
                        assert forall|j: int| 0 <= j < f implies remark_text(*self, timeline_index as int, j) != Some(remark@) by {
                            assert(texts[j] != Some(remark@));
                        }
                    }
                    assert(has_item(*self, timeline_index as int, f as int));
                }
                self.item_mut(timeline_index, f)
            },
            None => {
                proof {
                    assert forall|k: int| 0 <= k < n implies #[trigger] remark_text(*self, timeline_index as int, k) != Some(remark@) by {
                        assert(texts[k] != Some(remark@));
                    }
                }
                None
            },
        }
    }
}

/// Editing one field of one item — `item_mut` followed by `Item::set_field` —
/// is local: every other item of every timeline stays as it was, the edited
/// field reads back as the value written, and the item's other fields keep
/// their presence and values.
pub proof fn law_item_edit_is_local(
    before: YmmpProject,
    after: YmmpProject,
    timeline_index: int,
    item_index: int,
    edited: Item,
    key: Seq<char>,
    value: serde_json::Value,
    other_timeline: int,
    other_item: int,
    other_key: Seq<char>,
)
    requires
        has_item(before, timeline_index, item_index),
        replaces_item(before, after, timeline_index, item_index, edited),
        edited.fields@ == before.timelines@[timeline_index].items@[item_index].fields@.insert(key, value),
    ensures
        has_item(after, timeline_index, item_index),
        after.timelines@[timeline_index].items@[item_index].fields@.contains_key(key),
        after.timelines@[timeline_index].items@[item_index].fields@[key] == value,
        other_key != key ==> after.timelines@[timeline_index].items@[item_index].fields@.contains_key(other_key)
            == before.timelines@[timeline_index].items@[item_index].fields@.contains_key(other_key),
        other_key != key && before.timelines@[timeline_index].items@[item_index].fields@.contains_key(other_key)
            ==> after.timelines@[timeline_index].items@[item_index].fields@[other_key]
                == before.timelines@[timeline_index].items@[item_index].fields@[other_key],
        has_item(before, other_timeline, other_item) && (other_timeline != timeline_index || other_item != item_index)
            ==> has_item(after, other_timeline, other_item)
                && after.timelines@[other_timeline].items@[other_item] == before.timelines@[other_timeline].items@[other_item],
{
    if has_item(before, other_timeline, other_item) && other_timeline != timeline_index {
        assert(after.timelines@[other_timeline] == before.timelines@[other_timeline]);
    }
}

/// The UTF-8 byte-order mark that YMM4 writes before a project's JSON.
pub const UTF8_BOM: &'static str = "\u{feff}";

/// The byte-order mark YMM4 writes at the start of a project file.
pub open spec fn bom_char() -> char {
    '\u{feff}'
}

/// A file text without its leading byte-order mark, where it has one.
pub open spec fn without_bom(text: Seq<char>) -> Seq<char> {
    if text.len() > 0 && text[0] == bom_char() {
        text.skip(1)
    } else {
        text
    }
}

/// Drops a leading UTF-8 byte-order mark from a project file's text.
pub fn strip_utf8_bom(text: &str) -> (res: &str)
    ensures
        res@ == without_bom(text@),
{
    let n = text.unicode_len();
    if n > 0 && text.get_char(0) == '\u{feff}' {
        text.substring_char(1, n)
    } else {
        text
    }
}

/// The text a project file is written with: a byte-order mark, then the JSON.
pub fn with_utf8_bom(json: &str) -> (res: String)
    ensures
        res@ == seq![bom_char()] + json@,
{
    let mut out = String::new();
    crate::text::push_char(&mut out, '\u{feff}');
    crate::text::push_text(&mut out, json);
    out
}

/// Writing a project's text and reading it back gives the same text; a text
/// read from a file that carries the mark is restored by writing it again.
pub proof fn law_bom_framing_round_trip(json: Seq<char>, file: Seq<char>)
    ensures
        without_bom(seq![bom_char()] + json) == json,
        file.len() > 0 && file[0] == bom_char() ==> seq![bom_char()] + without_bom(file) == file,
{
    assert((seq![bom_char()] + json).skip(1) =~= json);
    if file.len() > 0 && file[0] == bom_char() {
        assert(seq![bom_char()] + file.skip(1) =~= file);
    }
}

/// Setting a field makes it read back as the value set, and leaves every other
/// field as it was; setting a field to the value it holds changes nothing.
pub proof fn law_field_set_then_read(m: Map<Seq<char>, serde_json::Value>, key: Seq<char>, other: Seq<char>, value: serde_json::Value)
    ensures
        m.insert(key, value).contains_key(key),
        m.insert(key, value)[key] == value,
        other != key ==> m.insert(key, value).contains_key(other) == m.contains_key(other),
        other != key && m.contains_key(other) ==> m.insert(key, value)[other] == m[other],
        m.contains_key(key) && m[key] == value ==> m.insert(key, value) == m,
{
    if m.contains_key(key) && m[key] == value {
        assert(m.insert(key, value) =~= m);
    }
}

/// Every key of the map built from a list of entries comes from the list.
proof fn lemma_entries_domain(s: Seq<(String, serde_json::Value)>, k: Seq<char>)
    requires
        entries_map(s).contains_key(k),
    ensures
        exists|i: int| 0 <= i < s.len() && #[trigger] s[i].0@ == k,
    decreases s.len(),
{
    if s.last().0@ != k {
        lemma_entries_domain(s.drop_last(), k);
        let i = choose|i: int| 0 <= i < s.drop_last().len() && #[trigger] s.drop_last()[i].0@ == k;
        assert(s[i].0@ == k);
    } else {
        assert(s[s.len() - 1].0@ == k);
    }
}

/// A field map built from a list of entries with distinct keys holds exactly
/// those entries: each key with its value, and no other key. Listing a map and
/// building it back therefore loses, adds and changes nothing.
pub proof fn law_field_entries_round_trip(entries: Seq<(String, serde_json::Value)>, k: Seq<char>)
    requires
        keys_distinct(entries),
    ensures
        forall|i: int| 0 <= i < entries.len() ==> entries_map(entries).contains_key(#[trigger] entries[i].0@)
            && entries_map(entries)[entries[i].0@] == entries[i].1,
        entries_map(entries).contains_key(k) <==> exists|i: int| 0 <= i < entries.len() && #[trigger] entries[i].0@ == k,
{
    assert forall|i: int| 0 <= i < entries.len() implies entries_map(entries).contains_key(#[trigger] entries[i].0@)
        && entries_map(entries)[entries[i].0@] == entries[i].1 by {
        lemma_entries_lookup(entries, i);
    }
    if entries_map(entries).contains_key(k) {
        lemma_entries_domain(entries, k);
    }
}

} // verus!
