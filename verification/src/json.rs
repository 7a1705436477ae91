//! JSON values: booleans, integers, numbers, strings, arrays and objects,
//! with their conversions to truth values and references into them.
//!
//! A number is held as the bit pattern of its IEEE 754 double; an object
//! as a list of entries whose keys are distinct.
use vstd::prelude::*;
use crate::text::{spec_decimal, decimal_string, wide_decimal_string, char_string, chars_of, lemma_decimal_injective};

verus! {

/// A JSON value.
pub enum JsonValue {
    Boolean(bool),
    Integer(i128),
    /// A number, as the bits of an IEEE 754 double.
    Number(u64),
    String(String),
    Array(Vec<JsonValue>),
    /// An object, or `null`.
    Object(Option<JsonObject>),
    Undefined,
}

/// The entries of a JSON object.
pub struct JsonObject {
    entries: Vec<(String, JsonValue)>,
}

/// A JSON value as a mathematical value.
pub enum JsonView {
    Boolean(bool),
    Integer(i128),
    Number(u64),
    String(Seq<char>),
    Array(Seq<JsonView>),
    Object(Option<Seq<(Seq<char>, JsonView)>>),
    Undefined,
}

/// The view of a JSON value.
pub open spec fn json_view(v: JsonValue) -> JsonView
    decreases v, 1nat,
{
    match v {
        JsonValue::Boolean(b) => JsonView::Boolean(b),
        JsonValue::Integer(i) => JsonView::Integer(i),
        JsonValue::Number(n) => JsonView::Number(n),
        JsonValue::String(s) => JsonView::String(s@),
        JsonValue::Array(a) => JsonView::Array(array_view(a@)),
        JsonValue::Object(None) => JsonView::Object(None),
        JsonValue::Object(Some(o)) => JsonView::Object(Some(object_view(o))),
        JsonValue::Undefined => JsonView::Undefined,
    }
}

/// The views of a list of values.
pub open spec fn array_view(s: Seq<JsonValue>) -> Seq<JsonView>
    decreases s, s.len(),
{
    if s.len() == 0 {
        seq![]
    } else {
        array_view(s.subrange(0, s.len() - 1)).push(json_view(s[s.len() - 1]))
    }
}

/// The entries of an object, as mathematical values.
pub closed spec fn object_view(o: JsonObject) -> Seq<(Seq<char>, JsonView)>
    decreases o, 0nat,
{
    entries_view(o.entries@)
}

/// The views of a list of object entries.
pub closed spec fn entries_view(s: Seq<(String, JsonValue)>) -> Seq<(Seq<char>, JsonView)>
    decreases s, s.len(),
{
    if s.len() == 0 {
        seq![]
    } else {
        entries_view(s.subrange(0, s.len() - 1)).push((s[s.len() - 1].0@, json_view(s[s.len() - 1].1)))
    }
}


/// Whether no key occurs twice among the entries.
pub open spec fn distinct_keys(e: Seq<(Seq<char>, JsonView)>) -> bool {
    forall|i: int, j: int| 0 <= i < e.len() && 0 <= j < e.len() && i != j ==> (#[trigger] e[i]).0 != (#[trigger] e[j]).0
}

/// The entries of an object with the value of `key` set to `value`: in
/// place where the key is there, at the end where it is not.
pub open spec fn entries_insert(e: Seq<(Seq<char>, JsonView)>, key: Seq<char>, value: JsonView) -> Seq<(Seq<char>, JsonView)> {
    if exists|i: int| 0 <= i < e.len() && (#[trigger] e[i]).0 == key {
        let i = choose|i: int| 0 <= i < e.len() && (#[trigger] e[i]).0 == key;
        e.update(i, (key, value))
    } else {
        e.push((key, value))
    }
}

proof fn lemma_array_view_len(s: Seq<JsonValue>)
    ensures
        array_view(s).len() == s.len(),
    decreases s.len(),
{
    if s.len() > 0 {
        lemma_array_view_len(s.subrange(0, s.len() - 1));
    }
}

proof fn lemma_array_view_index(s: Seq<JsonValue>, i: int)
    requires
        0 <= i < s.len(),
    ensures
        array_view(s).len() == s.len(),
        array_view(s)[i] == json_view(s[i]),
    decreases s.len(),
{
    lemma_array_view_len(s);
    if i < s.len() - 1 {
        lemma_array_view_index(s.subrange(0, s.len() - 1), i);
    }
}

proof fn lemma_array_view_push(s: Seq<JsonValue>, v: JsonValue)
    ensures
        array_view(s.push(v)) == array_view(s).push(json_view(v)),
{
    assert(s.push(v).subrange(0, s.len() as int) =~= s);
}

proof fn lemma_entries_view_len(s: Seq<(String, JsonValue)>)
    ensures
        entries_view(s).len() == s.len(),
    decreases s.len(),
{
    if s.len() > 0 {
        lemma_entries_view_len(s.subrange(0, s.len() - 1));
    }
}

proof fn lemma_entries_view_index(s: Seq<(String, JsonValue)>, i: int)
    requires
        0 <= i < s.len(),
    ensures
        entries_view(s).len() == s.len(),
        entries_view(s)[i] == (s[i].0@, json_view(s[i].1)),
    decreases s.len(),
{
    lemma_entries_view_len(s);
    if i < s.len() - 1 {
        lemma_entries_view_index(s.subrange(0, s.len() - 1), i);
    }
}

proof fn lemma_entries_view_push(s: Seq<(String, JsonValue)>, e: (String, JsonValue))
    ensures
        entries_view(s.push(e)) == entries_view(s).push((e.0@, json_view(e.1))),
{
    assert(s.push(e).subrange(0, s.len() as int) =~= s);
}

proof fn lemma_entries_view_update(s: Seq<(String, JsonValue)>, i: int, e: (String, JsonValue))
    requires
        0 <= i < s.len(),
    ensures
        entries_view(s.update(i, e)) == entries_view(s).update(i, (e.0@, json_view(e.1))),
{
    lemma_entries_view_len(s);
    lemma_entries_view_len(s.update(i, e));
    assert forall|j: int| 0 <= j < s.len() implies #[trigger] entries_view(s.update(i, e))[j]
        == entries_view(s).update(i, (e.0@, json_view(e.1)))[j] by {
        lemma_entries_view_index(s.update(i, e), j);
        lemma_entries_view_index(s, j);
    }
    assert(entries_view(s.update(i, e)) =~= entries_view(s).update(i, (e.0@, json_view(e.1))));
}

impl JsonObject {
    #[verifier::type_invariant]
    closed spec fn keys_are_distinct(self) -> bool {
        distinct_keys(entries_view(self.entries@))
    }

    /// An object without entries.
    pub fn new() -> (o: JsonObject)
        ensures
            object_view(o) == Seq::<(Seq<char>, JsonView)>::empty(),
    {
        let o = JsonObject { entries: Vec::new() };
        proof {
            assert(entries_view(o.entries@) =~= Seq::<(Seq<char>, JsonView)>::empty());
        }
        o
    }

    /// An object without entries, with room for `capacity` of them.
    pub fn with_capacity(capacity: usize) -> (o: JsonObject)
        ensures
            object_view(o) == Seq::<(Seq<char>, JsonView)>::empty(),
    {
        let o = JsonObject { entries: Vec::with_capacity(capacity) };
        proof {
            assert(entries_view(o.entries@) =~= Seq::<(Seq<char>, JsonView)>::empty());
        }
        o
    }

    /// The number of entries.
    pub fn len(&self) -> (n: usize)
        ensures
            n == object_view(*self).len(),
    {
        proof {
            lemma_entries_view_len(self.entries@);
        }
        self.entries.len()
    }

    /// The key of the entry at `index`, if there is one.
    pub fn key_at(&self, index: usize) -> (r: Option<&String>)
        ensures
            index < object_view(*self).len() ==> (r matches Some(k) && k@ == object_view(*self)[index as int].0),
            index >= object_view(*self).len() ==> r is None,
            object_view(*self).len() <= usize::MAX,
    {
        proof {
            lemma_entries_view_len(self.entries@);
        }
        if index < self.entries.len() {
            proof {
                lemma_entries_view_index(self.entries@, index as int);
            }
            Some(&self.entries[index].0)
        } else {
            None
        }
    }

    /// The value of the entry at `index`, if there is one.
    pub fn value_at(&self, index: usize) -> (r: Option<&JsonValue>)
        ensures
            index < object_view(*self).len() ==> (r matches Some(v) && json_view(*v) == object_view(*self)[index as int].1),
            index >= object_view(*self).len() ==> r is None,
            object_view(*self).len() <= usize::MAX,
    {
        proof {
            lemma_entries_view_len(self.entries@);
        }
        if index < self.entries.len() {
            proof {
                lemma_entries_view_index(self.entries@, index as int);
            }
            Some(&self.entries[index].1)
        } else {
            None
        }
    }

    /// Sets the value of `key`: in place where the key is there, as a new
    /// last entry where it is not.
    pub fn insert(&mut self, key: String, value: JsonValue)
        ensures
            object_view(*final(self)) == entries_insert(object_view(*old(self)), key@, json_view(value)),
            distinct_keys(object_view(*final(self))),
    {
        proof {
            use_type_invariant(&*self);
            lemma_entries_view_len(self.entries@);
        }
        let ghost e = entries_view(self.entries@);
        let mut i: usize = 0;
        while i < self.entries.len()
            invariant
                e == entries_view(self.entries@),
                *self == *old(self),
                e.len() == self.entries@.len(),
                distinct_keys(e),
                i <= self.entries@.len(),
                forall|j: int| 0 <= j < i ==> (#[trigger] e[j]).0 != key@,
            decreases self.entries@.len() - i,
        {
            proof {
                lemma_entries_view_index(self.entries@, i as int);
            }
            if self.entries[i].0 == key {
                let ghost ev = json_view(value);
                let mut entries = Vec::new();
                std::mem::swap(&mut entries, &mut self.entries);
                let ghost before = entries@;
                entries.set(i, (key, value));
                proof {
                    lemma_entries_view_update(before, i as int, entries@[i as int]);
                    assert(exists|k: int| 0 <= k < e.len() && (#[trigger] e[k]).0 == key@);
                    let c = choose|k: int| 0 <= k < e.len() && (#[trigger] e[k]).0 == key@;
                    assert(c == i);
                    assert(distinct_keys(e.update(i as int, (key@, ev))));
                    assert(entries_view(entries@) == entries_insert(e, key@, ev));
                }
                self.entries = entries;
                return;
            }
            i = i + 1;
        }
        let ghost ev = json_view(value);
        let mut entries = Vec::new();
        std::mem::swap(&mut entries, &mut self.entries);
        let ghost before = entries@;
        entries.push((key, value));
        proof {
            lemma_entries_view_push(before, entries@.last());
            assert(entries@ == before.push(entries@.last()));
            assert(!exists|k: int| 0 <= k < e.len() && (#[trigger] e[k]).0 == key@);
            assert(distinct_keys(e.push((key@, ev))));
        }
        self.entries = entries;
    }
}

/// Whether `c` is white space in the sense of Unicode (`char::is_whitespace`).
pub open spec fn is_space(c: char) -> bool {
    ('\u{9}' <= c <= '\u{d}') || c == ' ' || c == '\u{85}' || c == '\u{a0}' || c == '\u{1680}'
        || ('\u{2000}' <= c <= '\u{200a}') || c == '\u{2028}' || c == '\u{2029}' || c == '\u{202f}'
        || c == '\u{205f}' || c == '\u{3000}'
}

/// The characters without their leading white space.
pub open spec fn trim_front(s: Seq<char>) -> Seq<char>
    decreases s.len(),
{
    if s.len() > 0 && is_space(s[0]) {
        trim_front(s.drop_first())
    } else {
        s
    }
}

/// The characters without their trailing white space.
pub open spec fn trim_back(s: Seq<char>) -> Seq<char>
    decreases s.len(),
{
    if s.len() > 0 && is_space(s.last()) {
        trim_back(s.drop_last())
    } else {
        s
    }
}

/// The characters without white space at either end (`str::trim`).
pub open spec fn trim(s: Seq<char>) -> Seq<char> {
    trim_back(trim_front(s))
}

/// A character in ASCII lower case.
pub open spec fn lower_char(c: char) -> char {
    if 'A' <= c <= 'Z' {
        ((c as u8) + 32) as char
    } else {
        c
    }
}

/// The characters in ASCII lower case (`str::to_ascii_lowercase`).
pub open spec fn ascii_lower(s: Seq<char>) -> Seq<char> {
    s.map_values(|c: char| lower_char(c))
}

/// The text that decides the truth of a string: in lower case, trimmed.
pub open spec fn truth_text(s: Seq<char>) -> Seq<char> {
    trim(ascii_lower(s))
}

pub open spec fn word_true() -> Seq<char> {
    seq!['t', 'r', 'u', 'e']
}

pub open spec fn word_false() -> Seq<char> {
    seq!['f', 'a', 'l', 's', 'e']
}

pub open spec fn word_zero() -> Seq<char> {
    seq!['0']
}

/// The bits of a double with the sign cleared.
pub open spec fn magnitude_bits(n: u64) -> u64 {
    n & 0x7fff_ffff_ffff_ffff
}

/// The bits of the double `1.0`.
pub open spec fn one_bits() -> u64 {
    0x3ff0_0000_0000_0000
}

/// The truth that a double stands for: zero (of either sign) is false,
/// one is true, and any other double none.
pub open spec fn number_to_bool(n: u64) -> Option<bool> {
    if magnitude_bits(n) == 0 {
        Some(false)
    } else if n == one_bits() {
        Some(true)
    } else {
        None
    }
}

/// The truth that an integer stands for: 0 is false, 1 is true.
pub open spec fn integer_to_bool(i: i128) -> Option<bool> {
    if i == 0 {
        Some(false)
    } else if i == 1 {
        Some(true)
    } else {
        None
    }
}

/// The truth that a string stands for: `true` and `false` in any case with
/// white space about them, else what the double that it spells (given as
/// `number`) stands for.
pub open spec fn string_to_bool(s: Seq<char>, number: Option<u64>) -> Option<bool> {
    if truth_text(s) == word_true() {
        Some(true)
    } else if truth_text(s) == word_false() {
        Some(false)
    } else {
        match number {
            Some(n) => number_to_bool(n),
            None => None,
        }
    }
}

/// Whether a string is truthy: one that reads `false` or `0` is not, and
/// of the others exactly those that are blank are.
pub open spec fn string_truthy(s: Seq<char>) -> bool {
    if truth_text(s) == word_false() || truth_text(s) == word_zero() {
        false
    } else {
        trim(s).len() == 0
    }
}

/// Whether a string is falsy: one that reads `false` or `0` is, and of the
/// others exactly those that are blank are.
pub open spec fn string_falsy(s: Seq<char>) -> bool {
    if truth_text(s) == word_false() || truth_text(s) == word_zero() {
        true
    } else {
        trim(s).len() == 0
    }
}

/// Whether a value is truthy.
pub open spec fn truthy_spec(v: JsonView) -> bool {
    match v {
        JsonView::Boolean(b) => b,
        JsonView::Integer(i) => i != 0,
        JsonView::Number(n) => magnitude_bits(n) != 0,
        JsonView::String(s) => string_truthy(s),
        JsonView::Array(a) => a.len() > 0,
        JsonView::Object(o) => o is Some,
        JsonView::Undefined => false,
    }
}

/// Whether a value is falsy.
pub open spec fn falsy_spec(v: JsonView) -> bool {
    match v {
        JsonView::Boolean(b) => !b,
        JsonView::Integer(i) => i == 0,
        JsonView::Number(n) => magnitude_bits(n) == 0,
        JsonView::String(s) => string_falsy(s),
        JsonView::Array(a) => a.len() == 0,
        JsonView::Object(o) => o is None,
        JsonView::Undefined => true,
    }
}

/// The truth that a value stands for, where it stands for one; `number`
/// is the double that a string value spells, where it spells one.
pub open spec fn bool_spec(v: JsonView, number: Option<u64>) -> Option<bool> {
    match v {
        JsonView::Boolean(b) => Some(b),
        JsonView::Integer(i) => integer_to_bool(i),
        JsonView::Number(n) => number_to_bool(n),
        JsonView::String(s) => string_to_bool(s, number),
        JsonView::Array(a) => Some(a.len() > 0),
        JsonView::Object(None) => Some(false),
        JsonView::Object(Some(o)) => Some(o.len() > 0),
        JsonView::Undefined => Some(false),
    }
}

/// The name of a value's type.
pub open spec fn type_label(v: JsonView) -> Seq<char> {
    match v {
        JsonView::Undefined => "undefined"@,
        JsonView::Object(None) => "null"@,
        JsonView::Boolean(_) => "boolean"@,
        JsonView::Integer(_) => "integer"@,
        JsonView::Number(_) => "number"@,
        JsonView::String(_) => "string"@,
        JsonView::Array(_) => "array"@,
        JsonView::Object(Some(_)) => "object"@,
    }
}

fn is_space_char(c: char) -> (r: bool)
    ensures
        r == is_space(c),
{
    ('\u{9}' <= c && c <= '\u{d}') || c == ' ' || c == '\u{85}' || c == '\u{a0}' || c == '\u{1680}'
        || ('\u{2000}' <= c && c <= '\u{200a}') || c == '\u{2028}' || c == '\u{2029}' || c == '\u{202f}'
        || c == '\u{205f}' || c == '\u{3000}'
}

proof fn lemma_trim_front_skip(s: Seq<char>, i: int)
    requires
        0 <= i <= s.len(),
        forall|j: int| 0 <= j < i ==> is_space(#[trigger] s[j]),
    ensures
        trim_front(s) == trim_front(s.subrange(i, s.len() as int)),
    decreases i,
{
    if i > 0 {
        assert(s.drop_first().subrange(i - 1, s.len() - 1) =~= s.subrange(i, s.len() as int));
        assert forall|j: int| 0 <= j < i - 1 implies is_space(#[trigger] s.drop_first()[j]) by {
            assert(s.drop_first()[j] == s[j + 1]);
        }
        lemma_trim_front_skip(s.drop_first(), i - 1);
    } else {
        assert(s.subrange(0, s.len() as int) =~= s);
    }
}

proof fn lemma_trim_back_skip(s: Seq<char>, k: int)
    requires
        0 <= k <= s.len(),
        forall|j: int| k <= j < s.len() ==> is_space(#[trigger] s[j]),
    ensures
        trim_back(s) == trim_back(s.subrange(0, k)),
    decreases s.len() - k,
{
    if k < s.len() {
        assert(s.drop_last().subrange(0, k) =~= s.subrange(0, k));
        lemma_trim_back_skip(s.drop_last(), k);
    } else {
        assert(s.subrange(0, s.len() as int) =~= s);
    }
}

/// The bounds of the trimmed characters: `chars[from..to]` is `trim(chars)`.
pub(crate) fn trim_bounds(chars: &Vec<char>) -> (r: (usize, usize))
    ensures
        r.0 <= r.1 <= chars@.len(),
        chars@.subrange(r.0 as int, r.1 as int) == trim(chars@),
{
    let n = chars.len();
    let mut i: usize = 0;
    while i < n && is_space_char(chars[i])
        invariant
            n == chars@.len(),
            i <= n,
            forall|j: int| 0 <= j < i ==> is_space(#[trigger] chars@[j]),
        decreases n - i,
    {
        i = i + 1;
    }
    let ghost front = chars@.subrange(i as int, n as int);
    proof {
        lemma_trim_front_skip(chars@, i as int);
        if i < n {
            assert(!is_space(front[0]));
        }
        assert(trim_front(front) == front);
    }
    let mut k: usize = n;
    while k > i && is_space_char(chars[k - 1])
        invariant
            n == chars@.len(),
            i <= k <= n,
            forall|j: int| k <= j < n ==> is_space(#[trigger] chars@[j]),
        decreases k,
    {
        k = k - 1;
    }
    proof {
        let f = front;
        assert forall|j: int| k - i <= j < f.len() implies is_space(#[trigger] f[j]) by {
            assert(f[j] == chars@[j + i]);
        }
        lemma_trim_back_skip(f, k - i);
        assert(f.subrange(0, k - i) =~= chars@.subrange(i as int, k as int));
        if k > i {
            assert(!is_space(f.subrange(0, k - i).last()));
        }
    }
    (i, k)
}

fn lower(c: char) -> (r: char)
    ensures
        r == lower_char(c),
{
    if 'A' <= c && c <= 'Z' {
        ((c as u8) + 32) as char
    } else {
        c
    }
}

/// The characters of `s` from `from` to `to`, in ASCII lower case, equal
/// `word`.
fn lower_range_is(chars: &Vec<char>, from: usize, to: usize, word: &[char]) -> (r: bool)
    requires
        from <= to <= chars@.len(),
    ensures
        r == (ascii_lower(chars@.subrange(from as int, to as int)) == word@),
{
    let ghost part = ascii_lower(chars@.subrange(from as int, to as int));
    if to - from != word.len() {
        proof {
            assert(part.len() != word@.len());
        }
        return false;
    }
    let mut i: usize = 0;
    while i < word.len()
        invariant
            from <= to <= chars@.len(),
            to - from == word@.len(),
            part == ascii_lower(chars@.subrange(from as int, to as int)),
            i <= word@.len(),
            forall|j: int| 0 <= j < i ==> part[j] == word@[j],
        decreases word@.len() - i,
    {
        if lower(chars[from + i]) != word[i] {
            proof {
                assert(part[i as int] != word@[i as int]);
            }
            return false;
        }
        i = i + 1;
    }
    proof {
        assert(part =~= word@);
    }
    true
}

proof fn lemma_trim_lower(s: Seq<char>)
    ensures
        trim(ascii_lower(s)) == ascii_lower(trim(s)),
{
    lemma_trim_front_lower(s);
    lemma_trim_back_lower(trim_front(s));
}

proof fn lemma_trim_front_lower(s: Seq<char>)
    ensures
        trim_front(ascii_lower(s)) == ascii_lower(trim_front(s)),
    decreases s.len(),
{
    if s.len() > 0 {
        assert(ascii_lower(s).drop_first() =~= ascii_lower(s.drop_first()));
        lemma_trim_front_lower(s.drop_first());
    }
}

proof fn lemma_trim_back_lower(s: Seq<char>)
    ensures
        trim_back(ascii_lower(s)) == ascii_lower(trim_back(s)),
    decreases s.len(),
{
    if s.len() > 0 {
        assert(ascii_lower(s).drop_last() =~= ascii_lower(s.drop_last()));
        lemma_trim_back_lower(s.drop_last());
    }
}

/// The trimmed characters of a string, and whether they read, in lower
/// case, `false`, `0` and `true`.
fn truth_words(s: &String) -> (r: (bool, bool, bool, bool))
    ensures
        r.0 == (truth_text(s@) == word_false()),
        r.1 == (truth_text(s@) == word_zero()),
        r.2 == (truth_text(s@) == word_true()),
        r.3 == (trim(s@).len() == 0),
{
    let chars = crate::text::chars_of(s.as_str());
    let (from, to) = trim_bounds(&chars);
    proof {
        lemma_trim_lower(s@);
    }
    let w_false = ['f', 'a', 'l', 's', 'e'];
    let w_zero = ['0'];
    let w_true = ['t', 'r', 'u', 'e'];
    proof {
        assert(w_false@ =~= word_false());
        assert(w_zero@ =~= word_zero());
        assert(w_true@ =~= word_true());
    }
    let is_false = lower_range_is(&chars, from, to, &w_false);
    let is_zero = lower_range_is(&chars, from, to, &w_zero);
    let is_true = lower_range_is(&chars, from, to, &w_true);
    (is_false, is_zero, is_true, from == to)
}

fn number_bool(n: u64) -> (r: Option<bool>)
    ensures
        r == number_to_bool(n),
{
    if n & 0x7fff_ffff_ffff_ffff == 0 {
        Some(false)
    } else if n == 0x3ff0_0000_0000_0000 {
        Some(true)
    } else {
        None
    }
}

impl JsonValue {
    /// A deep copy of this value.
    pub fn duplicate(&self) -> (r: JsonValue)
        ensures
            json_view(r) == json_view(*self),
        decreases self,
    {
        match self {
            JsonValue::Boolean(b) => JsonValue::Boolean(*b),
            JsonValue::Integer(i) => JsonValue::Integer(*i),
            JsonValue::Number(n) => JsonValue::Number(*n),
            JsonValue::String(s) => JsonValue::String(s.clone()),
            JsonValue::Array(a) => {
                let mut out: Vec<JsonValue> = Vec::new();
                let mut i: usize = 0;
                while i < a.len()
                    invariant
                        i <= a@.len(),
                        *self == JsonValue::Array(*a),
                        array_view(out@) == array_view(a@.subrange(0, i as int)),
                    decreases a@.len() - i,
                {
                    proof {
                        assert(decreases_to!(*self => (*self)->Array_0));
                        assert(decreases_to!(*a => a@));
                        assert(decreases_to!(a@ => a@[i as int]));
                    }
                    let v = a[i].duplicate();
                    proof {
                        lemma_array_view_push(out@, v);
                        assert(a@.subrange(0, i + 1).subrange(0, i as int) =~= a@.subrange(0, i as int));
                    }
                    out.push(v);
                    i = i + 1;
                }
                proof {
                    assert(a@.subrange(0, a@.len() as int) =~= a@);
                }
                JsonValue::Array(out)
            },
            JsonValue::Object(None) => JsonValue::Object(None),
            JsonValue::Object(Some(o)) => {
                proof {
                    use_type_invariant(o);
                }
                let mut out: Vec<(String, JsonValue)> = Vec::new();
                let mut i: usize = 0;
                while i < o.entries.len()
                    invariant
                        i <= o.entries@.len(),
                        *self == JsonValue::Object(Some(*o)),
                        entries_view(out@) == entries_view(o.entries@.subrange(0, i as int)),
                    decreases o.entries@.len() - i,
                {
                    let k = o.entries[i].0.clone();
                    proof {
                        assert(decreases_to!(*self => (*self)->Object_0));
                        assert(decreases_to!((*self)->Object_0 => (*self)->Object_0->Some_0));
                        assert(decreases_to!(*o => o.entries));
                        assert(decreases_to!(o.entries => o.entries@));
                        assert(decreases_to!(o.entries@ => o.entries@[i as int]));
                        assert(decreases_to!(o.entries@[i as int] => o.entries@[i as int].1));
                    }
                    let v = o.entries[i].1.duplicate();
                    proof {
                        lemma_entries_view_push(out@, (k, v));
                        assert(o.entries@.subrange(0, i + 1).subrange(0, i as int) =~= o.entries@.subrange(0, i as int));
                    }
                    out.push((k, v));
                    i = i + 1;
                }
                proof {
                    assert(o.entries@.subrange(0, o.entries@.len() as int) =~= o.entries@);
                }
                JsonValue::Object(Some(JsonObject { entries: out }))
            },
            JsonValue::Undefined => JsonValue::Undefined,
        }
    }

    /// The value `null`.
    pub fn null() -> (v: JsonValue)
        ensures
            json_view(v) == JsonView::Object(None),
    {
        JsonValue::Object(None)
    }

    /// An empty object.
    pub fn new() -> (v: JsonValue)
        ensures
            json_view(v) == JsonView::Object(Some(Seq::<(Seq<char>, JsonView)>::empty())),
    {
        let o = JsonObject::new();
        JsonValue::Object(Some(o))
    }

    /// An empty object with room for `capacity` entries.
    pub fn with_capacity(capacity: usize) -> (v: JsonValue)
        ensures
            json_view(v) == JsonView::Object(Some(Seq::<(Seq<char>, JsonView)>::empty())),
    {
        let o = JsonObject::with_capacity(capacity);
        JsonValue::Object(Some(o))
    }

    /// The name of this value's type.
    pub fn type_of(&self) -> (s: &'static str)
        ensures
            s@ == type_label(json_view(*self)),
    {
        match self {
            JsonValue::Undefined => "undefined",
            JsonValue::Object(None) => "null",
            JsonValue::Boolean(_) => "boolean",
            JsonValue::Integer(_) => "integer",
            JsonValue::Number(_) => "number",
            JsonValue::String(_) => "string",
            JsonValue::Array(_) => "array",
            JsonValue::Object(Some(_)) => "object",
        }
    }

    /// Whether this value is truthy.
    pub fn truthy(&self) -> (r: bool)
        ensures
            r == truthy_spec(json_view(*self)),
    {
        match self {
            JsonValue::Boolean(b) => *b,
            JsonValue::Integer(i) => *i != 0,
            JsonValue::Number(n) => *n & 0x7fff_ffff_ffff_ffff != 0,
            JsonValue::String(s) => {
                let (is_false, is_zero, _, blank) = truth_words(s);
                if is_false || is_zero {
                    false
                } else {
                    blank
                }
            },
            JsonValue::Array(a) => {
                proof {
                    lemma_array_view_len(a@);
                }
                a.len() > 0
            },
            JsonValue::Object(o) => o.is_some(),
            JsonValue::Undefined => false,
        }
    }

    /// Whether this value is falsy.
    pub fn falsy(&self) -> (r: bool)
        ensures
            r == falsy_spec(json_view(*self)),
    {
        match self {
            JsonValue::Boolean(b) => !*b,
            JsonValue::Integer(i) => *i == 0,
            JsonValue::Number(n) => *n & 0x7fff_ffff_ffff_ffff == 0,
            JsonValue::String(s) => {
                let (is_false, is_zero, _, blank) = truth_words(s);
                if is_false || is_zero {
                    true
                } else {
                    blank
                }
            },
            JsonValue::Array(a) => {
                proof {
                    lemma_array_view_len(a@);
                }
                a.len() == 0
            },
            JsonValue::Object(o) => o.is_none(),
            JsonValue::Undefined => true,
        }
    }

    /// The truth that this value stands for, where it stands for one.
    /// `number` is the bit pattern of the double that a string value spells
    /// (`str::parse::<f64>`), where it spells one; it is read for strings
    /// other than `true` and `false` only.
    pub fn bool(&self, number: Option<u64>) -> (r: Option<bool>)
        ensures
            r == bool_spec(json_view(*self), number),
    {
        match self {
            JsonValue::Boolean(b) => Some(*b),
            JsonValue::Integer(i) => {
                if *i == 0 {
                    Some(false)
                } else if *i == 1 {
                    Some(true)
                } else {
                    None
                }
            },
            JsonValue::Number(n) => number_bool(*n),
            JsonValue::String(s) => {
                let (is_false, _, is_true, _) = truth_words(s);
                if is_true {
                    Some(true)
                } else if is_false {
                    Some(false)
                } else {
                    match number {
                        Some(n) => number_bool(n),
                        None => None,
                    }
                }
            },
            JsonValue::Array(a) => {
                proof {
                    lemma_array_view_len(a@);
                }
                Some(a.len() > 0)
            },
            JsonValue::Object(None) => Some(false),
            JsonValue::Object(Some(o)) => Some(o.len() > 0),
            JsonValue::Undefined => Some(false),
        }
    }
}

/// A reference to a JSON value, or to one character of a string value.
pub enum JsonRef<'a> {
    Boolean(&'a bool),
    Integer(&'a i128),
    Number(&'a u64),
    String(&'a String),
    Array(&'a Vec<JsonValue>),
    Object(&'a Option<JsonObject>),
    Char(char),
    Undefined,
}

/// The value that a reference stands for; a character is a string of one.
pub open spec fn ref_view(r: JsonRef) -> JsonView {
    match r {
        JsonRef::Boolean(b) => JsonView::Boolean(*b),
        JsonRef::Integer(i) => JsonView::Integer(*i),
        JsonRef::Number(n) => JsonView::Number(*n),
        JsonRef::String(s) => JsonView::String(s@),
        JsonRef::Array(a) => JsonView::Array(array_view(a@)),
        JsonRef::Object(None) => JsonView::Object(None),
        JsonRef::Object(Some(o)) => JsonView::Object(Some(object_view(*o))),
        JsonRef::Char(c) => JsonView::String(seq![c]),
        JsonRef::Undefined => JsonView::Undefined,
    }
}

/// Whether a reference is to one character.
pub open spec fn is_char_ref(r: JsonRef) -> bool {
    r is Char
}

/// Whether a character is ASCII white space (`char::is_ascii_whitespace`).
pub open spec fn is_ascii_space(c: char) -> bool {
    c == ' ' || c == '\t' || c == '\n' || c == '\u{c}' || c == '\r'
}

/// The name of the type of what a reference stands for; integers are
/// named `interger` here, and a character is a `string`.
pub open spec fn ref_type_label(r: JsonView, is_char: bool) -> Seq<char> {
    if is_char {
        "string"@
    } else {
        match r {
            JsonView::Integer(_) => "interger"@,
            _ => type_label(r),
        }
    }
}

/// Whether what a reference stands for is truthy: a character is when it
/// is neither `0` nor ASCII white space.
pub open spec fn ref_truthy(r: JsonRef) -> bool {
    match r {
        JsonRef::Char(c) => c != '0' && !is_ascii_space(c),
        _ => truthy_spec(ref_view(r)),
    }
}

/// Whether what a reference stands for is falsy: a character is when it is
/// `0` or ASCII white space.
pub open spec fn ref_falsy(r: JsonRef) -> bool {
    match r {
        JsonRef::Char(c) => c == '0' || is_ascii_space(c),
        _ => falsy_spec(ref_view(r)),
    }
}

fn duplicate_array(a: &Vec<JsonValue>) -> (r: Vec<JsonValue>)
    ensures
        array_view(r@) == array_view(a@),
{
    let mut out: Vec<JsonValue> = Vec::new();
    let mut i: usize = 0;
    while i < a.len()
        invariant
            i <= a@.len(),
            array_view(out@) == array_view(a@.subrange(0, i as int)),
        decreases a@.len() - i,
    {
        let v = a[i].duplicate();
        proof {
            lemma_array_view_push(out@, v);
            assert(a@.subrange(0, i + 1).subrange(0, i as int) =~= a@.subrange(0, i as int));
        }
        out.push(v);
        i = i + 1;
    }
    proof {
        assert(a@.subrange(0, a@.len() as int) =~= a@);
    }
    out
}

impl JsonValue {
    /// A reference to this value.
    pub fn to_ref(&self) -> (r: JsonRef<'_>)
        ensures
            ref_view(r) == json_view(*self),
            !is_char_ref(r),
    {
        match self {
            JsonValue::Undefined => JsonRef::Undefined,
            JsonValue::Boolean(b) => JsonRef::Boolean(b),
            JsonValue::Integer(i) => JsonRef::Integer(i),
            JsonValue::Number(n) => JsonRef::Number(n),
            JsonValue::String(s) => JsonRef::String(s),
            JsonValue::Array(a) => JsonRef::Array(a),
            JsonValue::Object(o) => JsonRef::Object(o),
        }
    }
}

impl<'a> JsonRef<'a> {
    /// A copy of the value that this reference stands for.
    pub fn value(&self) -> (v: JsonValue)
        ensures
            json_view(v) == ref_view(*self),
            *self matches JsonRef::Char(c) ==> json_view(v) == JsonView::String(seq![c]),
    {
        match self {
            JsonRef::Boolean(b) => JsonValue::Boolean(**b),
            JsonRef::Integer(i) => JsonValue::Integer(**i),
            JsonRef::Number(n) => JsonValue::Number(**n),
            JsonRef::String(s) => JsonValue::String((*s).clone()),
            JsonRef::Char(c) => JsonValue::String(crate::text::char_string(*c)),
            JsonRef::Array(a) => JsonValue::Array(duplicate_array(a)),
            JsonRef::Object(None) => JsonValue::Object(None),
            JsonRef::Object(Some(o)) => {
                let v = JsonValue::Object(Some(o.duplicate_object()));
                v
            },
            JsonRef::Undefined => JsonValue::Undefined,
        }
    }

    /// The name of the type of what this reference stands for.
    pub fn type_of(&self) -> (s: &'static str)
        ensures
            s@ == ref_type_label(ref_view(*self), is_char_ref(*self)),
    {
        match self {
            JsonRef::Undefined => "undefined",
            JsonRef::Object(None) => "null",
            JsonRef::Boolean(_) => "boolean",
            JsonRef::Integer(_) => "interger",
            JsonRef::Number(_) => "number",
            JsonRef::String(_) => "string",
            JsonRef::Char(_) => "string",
            JsonRef::Array(_) => "array",
            JsonRef::Object(Some(_)) => "object",
        }
    }

    /// The boolean that this reference is to, if it is to one.
    pub fn boolean(&self) -> (r: Option<&'a bool>)
        ensures
            match ref_view(*self) {
                JsonView::Boolean(b) => r matches Some(x) && *x == b,
                _ => r is None,
            },
    {
        match self {
            JsonRef::Boolean(b) => Some(*b),
            _ => None,
        }
    }

    /// Whether what this reference stands for is truthy.
    pub fn truthy(&self) -> (r: bool)
        ensures
            r == ref_truthy(*self),
    {
        match self {
            JsonRef::Boolean(b) => **b,
            JsonRef::Integer(i) => **i != 0,
            JsonRef::Number(n) => **n & 0x7fff_ffff_ffff_ffff != 0,
            JsonRef::String(s) => {
                let (is_false, is_zero, _, blank) = truth_words(s);
                if is_false || is_zero {
                    false
                } else {
                    blank
                }
            },
            JsonRef::Char(c) => *c != '0' && !(*c == ' ' || *c == '\t' || *c == '\n' || *c == '\u{c}' || *c == '\r'),
            JsonRef::Array(a) => {
                proof {
                    lemma_array_view_len(a@);
                }
                a.len() > 0
            },
            JsonRef::Object(o) => o.is_some(),
            JsonRef::Undefined => false,
        }
    }

    /// Whether what this reference stands for is falsy.
    pub fn falsy(&self) -> (r: bool)
        ensures
            r == ref_falsy(*self),
    {
        match self {
            JsonRef::Boolean(b) => !**b,
            JsonRef::Integer(i) => **i == 0,
            JsonRef::Number(n) => **n & 0x7fff_ffff_ffff_ffff == 0,
            JsonRef::String(s) => {
                let (is_false, is_zero, _, blank) = truth_words(s);
                if is_false || is_zero {
                    true
                } else {
                    blank
                }
            },
            JsonRef::Char(c) => *c == '0' || (*c == ' ' || *c == '\t' || *c == '\n' || *c == '\u{c}' || *c == '\r'),
            JsonRef::Array(a) => {
                proof {
                    lemma_array_view_len(a@);
                }
                a.len() == 0
            },
            JsonRef::Object(o) => o.is_none(),
            JsonRef::Undefined => true,
        }
    }
}

impl JsonObject {
    /// A deep copy of this object.
    pub fn duplicate_object(&self) -> (r: JsonObject)
        ensures
            object_view(r) == object_view(*self),
    {
        proof {
            use_type_invariant(self);
        }
        let mut out: Vec<(String, JsonValue)> = Vec::new();
        let mut i: usize = 0;
        while i < self.entries.len()
            invariant
                i <= self.entries@.len(),
                entries_view(out@) == entries_view(self.entries@.subrange(0, i as int)),
            decreases self.entries@.len() - i,
        {
            let k = self.entries[i].0.clone();
            let v = self.entries[i].1.duplicate();
            proof {
                lemma_entries_view_push(out@, (k, v));
                assert(self.entries@.subrange(0, i + 1).subrange(0, i as int) =~= self.entries@.subrange(0, i as int));
            }
            out.push((k, v));
            i = i + 1;
        }
        proof {
            assert(self.entries@.subrange(0, self.entries@.len() as int) =~= self.entries@);
        }
        JsonObject { entries: out }
    }
}

/// A key of a value: an index into a string or an array, or the key of an
/// object's entry.
pub enum JsonKey<'a> {
    Index(usize),
    Key(&'a str),
}

/// A key as a mathematical value.
pub enum KeyView {
    Index(usize),
    Key(Seq<char>),
}

pub open spec fn key_view(k: JsonKey) -> KeyView {
    match k {
        JsonKey::Index(i) => KeyView::Index(i),
        JsonKey::Key(s) => KeyView::Key(s@),
    }
}

/// The indices from `i + 1` up to `len`: what a key iteration over `len`
/// places yields after it stands at `i`.
pub open spec fn indices_after(i: usize, len: usize) -> Seq<KeyView> {
    if i + 1 < len {
        Seq::new((len - i - 1) as nat, |j: int| KeyView::Index((i + 1 + j) as usize))
    } else {
        seq![]
    }
}

/// The keys of an object's entries from `k` on.
pub open spec fn object_keys_from(o: Seq<(Seq<char>, JsonView)>, k: nat) -> Seq<KeyView> {
    o.skip(k as int).map_values(|e: (Seq<char>, JsonView)| KeyView::Key(e.0))
}

/// The values of an object's entries from `k` on.
pub open spec fn object_values_from(o: Seq<(Seq<char>, JsonView)>, k: nat) -> Seq<JsonView> {
    o.skip(k as int).map_values(|e: (Seq<char>, JsonView)| e.1)
}

/// An iteration over the keys of a value.
pub enum KeyIter<'a> {
    Indexed(usize, usize),
    Object(&'a JsonObject, usize),
    Empty,
}

impl<'a> KeyIter<'a> {
    /// The keys still to come.
    pub closed spec fn rest(&self) -> Seq<KeyView> {
        match *self {
            KeyIter::Indexed(i, len) => indices_after(i, len),
            KeyIter::Object(o, k) => if k <= object_view(*o).len() {
                object_keys_from(object_view(*o), k as nat)
            } else {
                seq![]
            },
            KeyIter::Empty => seq![],
        }
    }

    /// The next key, if any.
    pub fn next(&mut self) -> (r: Option<JsonKey<'a>>)
        ensures
            old(self).rest().len() == 0 ==> r is None && final(self).rest() == old(self).rest(),
            old(self).rest().len() > 0 ==> (r matches Some(k) && key_view(k) == old(self).rest()[0]
                && final(self).rest() == old(self).rest().drop_first()),
    {
        match self {
            KeyIter::Indexed(i, len) => {
                if *i < *len {
                    *i = *i + 1;
                    if *i < *len {
                        let ghost after = indices_after(*i, *len);
                        proof {
                            assert(after =~= indices_after((*i - 1) as usize, *len).drop_first());
                        }
                        Some(JsonKey::Index(*i))
                    } else {
                        None
                    }
                } else {
                    None
                }
            },
            KeyIter::Object(o, k) => {
                let ghost ov = object_view(**o);
                match o.key_at(*k) {
                    Some(key) => {
                        let ghost before = object_keys_from(ov, *k as nat);
                        *k = *k + 1;
                        proof {
                            assert(object_keys_from(ov, *k as nat) =~= before.drop_first());
                        }
                        Some(JsonKey::Key(key.as_str()))
                    },
                    None => None,
                }
            },
            KeyIter::Empty => None,
        }
    }
}

/// The keys of a value: the indices of a string's bytes and of an array's
/// items, both from one on; the keys of an object's entries.
pub open spec fn keys_spec(v: JsonView, byte_len: nat) -> Seq<KeyView> {
    match v {
        JsonView::String(_) => indices_after(0, byte_len as usize),
        JsonView::Array(a) => indices_after(0, a.len() as usize),
        JsonView::Object(Some(o)) => object_keys_from(o, 0),
        _ => seq![],
    }
}

/// The number of bytes of a value's text where it is a string.
pub open spec fn string_bytes(v: JsonView) -> nat {
    match v {
        JsonView::String(s) => vstd::utf8::encode_utf8(s).len(),
        _ => 0,
    }
}

/// An iteration over the values in a value: the characters of a string (as
/// strings), the items of an array, the values of an object's entries.
pub enum ValueIter<'a> {
    String(Vec<char>, usize),
    Array(&'a Vec<JsonValue>, usize),
    Object(&'a JsonObject, usize),
    Empty,
}

/// The characters from `k` on, each as a string of one.
pub open spec fn char_values_from(c: Seq<char>, k: nat) -> Seq<JsonView> {
    c.skip(k as int).map_values(|x: char| JsonView::String(seq![x]))
}

impl<'a> ValueIter<'a> {
    /// The values still to come.
    pub closed spec fn rest(&self) -> Seq<JsonView> {
        match *self {
            ValueIter::String(c, k) => if k <= c@.len() { char_values_from(c@, k as nat) } else { seq![] },
            ValueIter::Array(a, k) => if k <= a@.len() { array_view(a@).skip(k as int) } else { seq![] },
            ValueIter::Object(o, k) => if k <= object_view(*o).len() {
                object_values_from(object_view(*o), k as nat)
            } else {
                seq![]
            },
            ValueIter::Empty => seq![],
        }
    }

    /// The next value, if any.
    pub fn next(&mut self) -> (r: Option<JsonValue>)
        ensures
            old(self).rest().len() == 0 ==> r is None && final(self).rest() == old(self).rest(),
            old(self).rest().len() > 0 ==> (r matches Some(v) && json_view(v) == old(self).rest()[0]
                && final(self).rest() == old(self).rest().drop_first()),
    {
        match self {
            ValueIter::String(c, k) => {
                if *k < c.len() {
                    let x = c[*k];
                    let ghost before = char_values_from(c@, *k as nat);
                    *k = *k + 1;
                    proof {
                        assert(char_values_from(c@, *k as nat) =~= before.drop_first());
                    }
                    Some(JsonValue::String(crate::text::char_string(x)))
                } else {
                    None
                }
            },
            ValueIter::Array(a, k) => {
                proof {
                    lemma_array_view_len(a@);
                }
                if *k < a.len() {
                    let v = a[*k].duplicate();
                    let ghost before = array_view(a@).skip(*k as int);
                    proof {
                        lemma_array_view_index(a@, *k as int);
                    }
                    *k = *k + 1;
                    proof {
                        assert(array_view(a@).skip(*k as int) =~= before.drop_first());
                    }
                    Some(v)
                } else {
                    None
                }
            },
            ValueIter::Object(o, k) => {
                let ghost ov = object_view(**o);
                match o.value_at(*k) {
                    Some(v) => {
                        let ghost before = object_values_from(ov, *k as nat);
                        let d = v.duplicate();
                        *k = *k + 1;
                        proof {
                            assert(object_values_from(ov, *k as nat) =~= before.drop_first());
                        }
                        Some(d)
                    },
                    None => None,
                }
            },
            ValueIter::Empty => None,
        }
    }
}

/// The values in a value: the characters of a string (as strings), the
/// items of an array, the values of an object's entries.
pub open spec fn values_spec(v: JsonView) -> Seq<JsonView> {
    match v {
        JsonView::String(s) => char_values_from(s, 0),
        JsonView::Array(a) => a,
        JsonView::Object(Some(o)) => object_values_from(o, 0),
        _ => seq![],
    }
}

/// An iteration over references to the values in a value.
pub enum JsonValueIterator<'a> {
    Array(&'a Vec<JsonValue>, usize),
    Object(&'a JsonObject, usize),
    String(Vec<char>, usize),
    NotIterable,
}

impl<'a> JsonValueIterator<'a> {
    /// The values that the references still to come stand for.
    pub closed spec fn rest(&self) -> Seq<JsonView> {
        match *self {
            JsonValueIterator::String(c, k) => if k <= c@.len() { char_values_from(c@, k as nat) } else { seq![] },
            JsonValueIterator::Array(a, k) => if k <= a@.len() { array_view(a@).skip(k as int) } else { seq![] },
            JsonValueIterator::Object(o, k) => if k <= object_view(*o).len() {
                object_values_from(object_view(*o), k as nat)
            } else {
                seq![]
            },
            JsonValueIterator::NotIterable => seq![],
        }
    }

    /// A reference to the next value, if any.
    pub fn next(&mut self) -> (r: Option<JsonRef<'a>>)
        ensures
            old(self).rest().len() == 0 ==> r is None && final(self).rest() == old(self).rest(),
            old(self).rest().len() > 0 ==> (r matches Some(v) && ref_view(v) == old(self).rest()[0]
                && final(self).rest() == old(self).rest().drop_first()),
    {
        match self {
            JsonValueIterator::String(c, k) => {
                if *k < c.len() {
                    let x = c[*k];
                    let ghost before = char_values_from(c@, *k as nat);
                    *k = *k + 1;
                    proof {
                        assert(char_values_from(c@, *k as nat) =~= before.drop_first());
                    }
                    Some(JsonRef::Char(x))
                } else {
                    None
                }
            },
            JsonValueIterator::Array(a, k) => {
                proof {
                    lemma_array_view_len(a@);
                }
                if *k < a.len() {
                    let ghost before = array_view(a@).skip(*k as int);
                    proof {
                        lemma_array_view_index(a@, *k as int);
                    }
                    let v: &'a JsonValue = &a[*k];
                    *k = *k + 1;
                    proof {
                        assert(array_view(a@).skip(*k as int) =~= before.drop_first());
                    }
                    Some(v.to_ref())
                } else {
                    None
                }
            },
            JsonValueIterator::Object(o, k) => {
                let ghost ov = object_view(**o);
                let obj: &'a JsonObject = *o;
                match obj.value_at(*k) {
                    Some(v) => {
                        let ghost before = object_values_from(ov, *k as nat);
                        *k = *k + 1;
                        proof {
                            assert(object_values_from(ov, *k as nat) =~= before.drop_first());
                        }
                        Some(v.to_ref())
                    },
                    None => None,
                }
            },
            JsonValueIterator::NotIterable => None,
        }
    }
}

/// An iteration over the keys and values in a value together.
pub enum EntryIter<'a> {
    String(Vec<char>, usize),
    Array(&'a Vec<JsonValue>, usize),
    Object(&'a JsonObject, usize),
    Empty,
}

/// The entries of an object from `k` on, as keys and values.
pub open spec fn object_entries_from(o: Seq<(Seq<char>, JsonView)>, k: nat) -> Seq<(KeyView, JsonView)> {
    o.skip(k as int).map_values(|e: (Seq<char>, JsonView)| (KeyView::Key(e.0), e.1))
}

/// Items from `k` on, each with its index.
pub open spec fn indexed_from(v: Seq<JsonView>, k: nat) -> Seq<(KeyView, JsonView)> {
    Seq::new((v.len() - k) as nat, |j: int| (KeyView::Index((k + j) as usize), v[k + j]))
}

impl<'a> EntryIter<'a> {
    /// The entries still to come.
    pub closed spec fn rest(&self) -> Seq<(KeyView, JsonView)> {
        match *self {
            EntryIter::String(c, k) => if k <= c@.len() { indexed_from(char_values_from(c@, 0), k as nat) } else { seq![] },
            EntryIter::Array(a, k) => if k <= a@.len() { indexed_from(array_view(a@), k as nat) } else { seq![] },
            EntryIter::Object(o, k) => if k <= object_view(*o).len() {
                object_entries_from(object_view(*o), k as nat)
            } else {
                seq![]
            },
            EntryIter::Empty => seq![],
        }
    }

    /// The next key and a reference to its value, if any.
    pub fn next(&mut self) -> (r: Option<(JsonKey<'a>, JsonRef<'a>)>)
        ensures
            old(self).rest().len() == 0 ==> r is None && final(self).rest() == old(self).rest(),
            old(self).rest().len() > 0 ==> (r matches Some((k, v)) && key_view(k) == old(self).rest()[0].0
                && ref_view(v) == old(self).rest()[0].1 && final(self).rest() == old(self).rest().drop_first()),
    {
        match self {
            EntryIter::String(c, k) => {
                if *k < c.len() {
                    let x = c[*k];
                    let i = *k;
                    let ghost before = indexed_from(char_values_from(c@, 0), *k as nat);
                    *k = *k + 1;
                    proof {
                        assert(indexed_from(char_values_from(c@, 0), *k as nat) =~= before.drop_first());
                    }
                    Some((JsonKey::Index(i), JsonRef::Char(x)))
                } else {
                    None
                }
            },
            EntryIter::Array(a, k) => {
                proof {
                    lemma_array_view_len(a@);
                }
                if *k < a.len() {
                    let i = *k;
                    let ghost before = indexed_from(array_view(a@), *k as nat);
                    proof {
                        lemma_array_view_index(a@, *k as int);
                    }
                    let v: &'a JsonValue = &a[*k];
                    *k = *k + 1;
                    proof {
                        assert(indexed_from(array_view(a@), *k as nat) =~= before.drop_first());
                    }
                    Some((JsonKey::Index(i), v.to_ref()))
                } else {
                    None
                }
            },
            EntryIter::Object(o, k) => {
                let ghost ov = object_view(**o);
                let obj: &'a JsonObject = *o;
                match (obj.key_at(*k), obj.value_at(*k)) {
                    (Some(key), Some(v)) => {
                        let ghost before = object_entries_from(ov, *k as nat);
                        *k = *k + 1;
                        proof {
                            assert(object_entries_from(ov, *k as nat) =~= before.drop_first());
                        }
                        Some((JsonKey::Key(key.as_str()), v.to_ref()))
                    },
                    _ => None,
                }
            },
            EntryIter::Empty => None,
        }
    }
}

/// The keys and values in a value: a string's characters and an array's
/// items with their indices from zero, an object's entries.
pub open spec fn entries_spec(v: JsonView) -> Seq<(KeyView, JsonView)> {
    match v {
        JsonView::String(s) => indexed_from(char_values_from(s, 0), 0),
        JsonView::Array(a) => indexed_from(a, 0),
        JsonView::Object(Some(o)) => object_entries_from(o, 0),
        _ => seq![],
    }
}

impl JsonValue {
    /// The keys of this value: the indices of a string's bytes and of an
    /// array's items, both from one on; the keys of an object's entries.
    pub fn keys(&self) -> (it: KeyIter<'_>)
        ensures
            it.rest() == keys_spec(json_view(*self), string_bytes(json_view(*self))),
    {
        match self {
            JsonValue::String(s) => KeyIter::Indexed(0, s.as_str().len()),
            JsonValue::Array(a) => {
                proof {
                    lemma_array_view_len(a@);
                }
                KeyIter::Indexed(0, a.len())
            },
            JsonValue::Object(Some(o)) => KeyIter::Object(o, 0),
            _ => KeyIter::Empty,
        }
    }

    /// The values in this value.
    pub fn values(&self) -> (it: ValueIter<'_>)
        ensures
            it.rest() == values_spec(json_view(*self)),
    {
        match self {
            JsonValue::String(s) => {
                let c = crate::text::chars_of(s.as_str());
                let it = ValueIter::String(c, 0);
                proof {
                    assert(it.rest() =~= values_spec(json_view(*self)));
                }
                it
            },
            JsonValue::Array(a) => {
                let it = ValueIter::Array(a, 0);
                proof {
                    assert(array_view(a@).skip(0) =~= array_view(a@));
                }
                it
            },
            JsonValue::Object(Some(o)) => ValueIter::Object(o, 0),
            _ => ValueIter::Empty,
        }
    }

    /// References to the values in this value.
    pub fn iter(&self) -> (it: JsonValueIterator<'_>)
        ensures
            it.rest() == values_spec(json_view(*self)),
    {
        match self {
            JsonValue::String(s) => {
                let c = crate::text::chars_of(s.as_str());
                let it = JsonValueIterator::String(c, 0);
                proof {
                    assert(it.rest() =~= values_spec(json_view(*self)));
                }
                it
            },
            JsonValue::Array(a) => {
                let it = JsonValueIterator::Array(a, 0);
                proof {
                    assert(array_view(a@).skip(0) =~= array_view(a@));
                }
                it
            },
            JsonValue::Object(Some(o)) => JsonValueIterator::Object(o, 0),
            _ => JsonValueIterator::NotIterable,
        }
    }

    /// The keys and values in this value together.
    pub fn entries(&self) -> (it: EntryIter<'_>)
        ensures
            it.rest() == entries_spec(json_view(*self)),
    {
        match self {
            JsonValue::String(s) => {
                let c = crate::text::chars_of(s.as_str());
                EntryIter::String(c, 0)
            },
            JsonValue::Array(a) => {
                proof {
                    lemma_array_view_len(a@);
                }
                EntryIter::Array(a, 0)
            },
            JsonValue::Object(Some(o)) => EntryIter::Object(o, 0),
            _ => EntryIter::Empty,
        }
    }
}

/// A value that could not be converted to the type wanted.
pub enum JsonError {
    NotABoolean(JsonValue),
    NotAnInteger(JsonValue),
    NotANumber(JsonValue),
    NotAString(JsonValue),
    NotAnArray(JsonValue),
    NotAnObject(JsonValue),
}

/// A mutable reference to a JSON value, or one character of a string.
pub enum JsonMutRef<'a> {
    Boolean(&'a mut bool),
    Integer(&'a mut i128),
    Number(&'a mut u64),
    String(&'a mut String),
    Array(&'a mut Vec<JsonValue>),
    Object(&'a mut Option<JsonObject>),
    Char(char),
    Undefined,
}

/// The value that a mutable reference stands for now.
pub open spec fn mut_ref_view(r: &JsonMutRef) -> JsonView {
    match r {
        JsonMutRef::Boolean(b) => JsonView::Boolean(**b),
        JsonMutRef::Integer(i) => JsonView::Integer(**i),
        JsonMutRef::Number(n) => JsonView::Number(**n),
        JsonMutRef::String(s) => JsonView::String((**s)@),
        JsonMutRef::Array(a) => JsonView::Array(array_view((**a)@)),
        JsonMutRef::Object(o) => match **o {
            None => JsonView::Object(None),
            Some(x) => JsonView::Object(Some(object_view(x))),
        },
        JsonMutRef::Char(c) => JsonView::String(seq![*c]),
        JsonMutRef::Undefined => JsonView::Undefined,
    }
}

impl<'a> JsonMutRef<'a> {
    /// Whether this reference is to one character.
    pub closed spec fn is_char(&self) -> bool {
        *self is Char
    }

    /// A copy of the value that this reference stands for.
    pub fn value(&self) -> (v: JsonValue)
        ensures
            json_view(v) == mut_ref_view(self),
    {
        match self {
            JsonMutRef::Boolean(b) => JsonValue::Boolean(**b),
            JsonMutRef::Integer(i) => JsonValue::Integer(**i),
            JsonMutRef::Number(n) => JsonValue::Number(**n),
            JsonMutRef::String(s) => JsonValue::String((**s).clone()),
            JsonMutRef::Char(c) => JsonValue::String(crate::text::char_string(*c)),
            JsonMutRef::Array(a) => JsonValue::Array(duplicate_array(&**a)),
            JsonMutRef::Object(o) => match &**o {
                None => JsonValue::Object(None),
                Some(x) => JsonValue::Object(Some(x.duplicate_object())),
            },
            JsonMutRef::Undefined => JsonValue::Undefined,
        }
    }
}

impl<'a> JsonMutRef<'a> {
    /// A mutable reference to a value.
    pub fn from(value: &'a mut JsonValue) -> (r: JsonMutRef<'a>)
        ensures
            mut_ref_view(&r) == json_view(*old(value)),
            !r.is_char(),
            match r {
                JsonMutRef::Boolean(b) => json_view(*final(value)) == JsonView::Boolean(*final(b)),
                JsonMutRef::Integer(i) => json_view(*final(value)) == JsonView::Integer(*final(i)),
                JsonMutRef::Number(n) => json_view(*final(value)) == JsonView::Number(*final(n)),
                JsonMutRef::String(t) => json_view(*final(value)) == JsonView::String((*final(t))@),
                JsonMutRef::Array(a) => json_view(*final(value)) == JsonView::Array(array_view((*final(a))@)),
                JsonMutRef::Object(o) => json_view(*final(value)) == match *final(o) {
                    None => JsonView::Object(None),
                    Some(x) => JsonView::Object(Some(object_view(x))),
                },
                JsonMutRef::Char(_) => true,
                JsonMutRef::Undefined => json_view(*final(value)) == JsonView::Undefined,
            },
    {
        match value {
            JsonValue::Undefined => JsonMutRef::Undefined,
            JsonValue::Boolean(b) => JsonMutRef::Boolean(b),
            JsonValue::Integer(i) => JsonMutRef::Integer(i),
            JsonValue::Number(n) => JsonMutRef::Number(n),
            JsonValue::String(s) => JsonMutRef::String(s),
            JsonValue::Array(a) => JsonMutRef::Array(a),
            JsonValue::Object(o) => JsonMutRef::Object(o),
        }
    }

    /// The name of the type of what this reference stands for.
    pub fn type_of(&self) -> (s: &'static str)
        ensures
            s@ == ref_type_label(mut_ref_view(self), self.is_char()),
    {
        match self {
            JsonMutRef::Undefined => "undefined",
            JsonMutRef::Object(o) => match &**o {
                None => "null",
                Some(_) => "object",
            },
            JsonMutRef::Boolean(_) => "boolean",
            JsonMutRef::Integer(_) => "interger",
            JsonMutRef::Number(_) => "number",
            JsonMutRef::String(_) => "string",
            JsonMutRef::Char(_) => "string",
            JsonMutRef::Array(_) => "array",
        }
    }

    /// Whether what this reference stands for is truthy: a character is
    /// when it is neither `0` nor ASCII white space.
    pub fn truthy(&self) -> (r: bool)
        ensures
            r == (if self.is_char() {
                mut_ref_view(self) != JsonView::String(seq!['0'])
                    && !(mut_ref_view(self) matches JsonView::String(c) && c.len() == 1 && is_ascii_space(c[0]))
            } else {
                truthy_spec(mut_ref_view(self))
            }),
    {
        match self {
            JsonMutRef::Boolean(b) => **b,
            JsonMutRef::Integer(i) => **i != 0,
            JsonMutRef::Number(n) => **n & 0x7fff_ffff_ffff_ffff != 0,
            JsonMutRef::String(s) => {
                let (is_false, is_zero, _, blank) = truth_words(&**s);
                if is_false || is_zero {
                    false
                } else {
                    blank
                }
            },
            JsonMutRef::Char(c) => {
                proof {
                    assert(seq![*c] == seq!['0'] <==> *c == '0') by {
                        if seq![*c] == seq!['0'] {
                            assert(seq![*c][0] == seq!['0'][0]);
                        }
                    }
                }
                *c != '0' && !(*c == ' ' || *c == '\t' || *c == '\n' || *c == '\u{c}' || *c == '\r')
            },
            JsonMutRef::Array(a) => {
                proof {
                    lemma_array_view_len((**a)@);
                }
                a.len() > 0
            },
            JsonMutRef::Object(o) => o.is_some(),
            JsonMutRef::Undefined => false,
        }
    }

    /// Whether what this reference stands for is falsy: a character is when
    /// it is `0` or ASCII white space.
    pub fn falsy(&self) -> (r: bool)
        ensures
            r == (if self.is_char() {
                mut_ref_view(self) == JsonView::String(seq!['0'])
                    || (mut_ref_view(self) matches JsonView::String(c) && c.len() == 1 && is_ascii_space(c[0]))
            } else {
                falsy_spec(mut_ref_view(self))
            }),
    {
        match self {
            JsonMutRef::Boolean(b) => !**b,
            JsonMutRef::Integer(i) => **i == 0,
            JsonMutRef::Number(n) => **n & 0x7fff_ffff_ffff_ffff == 0,
            JsonMutRef::String(s) => {
                let (is_false, is_zero, _, blank) = truth_words(&**s);
                if is_false || is_zero {
                    true
                } else {
                    blank
                }
            },
            JsonMutRef::Char(c) => {
                proof {
                    assert(seq![*c] == seq!['0'] <==> *c == '0') by {
                        if seq![*c] == seq!['0'] {
                            assert(seq![*c][0] == seq!['0'][0]);
                        }
                    }
                }
                *c == '0' || (*c == ' ' || *c == '\t' || *c == '\n' || *c == '\u{c}' || *c == '\r')
            },
            JsonMutRef::Array(a) => {
                proof {
                    lemma_array_view_len((**a)@);
                }
                a.len() == 0
            },
            JsonMutRef::Object(o) => o.is_none(),
            JsonMutRef::Undefined => true,
        }
    }

    /// The boolean that this reference is to, if it is to one, to read or
    /// change.
    pub fn boolean(&mut self) -> (r: Option<&mut bool>)
        ensures
            match mut_ref_view(old(self)) {
                JsonView::Boolean(b) => !old(self).is_char() && (r matches Some(x) && *x == b
                    && mut_ref_view(final(self)) == JsonView::Boolean(*final(x))),
                _ => r is None,
            },
    {
        match self {
            JsonMutRef::Boolean(b) => Some(&mut **b),
            _ => None,
        }
    }
}

/// Exactly one of truthy and falsy holds of every value but a string.
pub proof fn lemma_truthy_falsy_complement(v: JsonView)
    requires
        !(v is String),
    ensures
        falsy_spec(v) == !truthy_spec(v),
{
}

/// Exactly one of truthy and falsy holds of what a reference stands for,
/// unless it is a string value: a character is one or the other.
pub proof fn lemma_ref_truthy_falsy_complement(r: JsonRef)
    requires
        is_char_ref(r) || !(ref_view(r) is String),
    ensures
        ref_falsy(r) == !ref_truthy(r),
{
}


/// The values of the characters of a string, each a string of one.
pub open spec fn char_values(s: Seq<char>) -> Seq<JsonView> {
    Seq::new(s.len(), |i: int| JsonView::String(seq![s[i]]))
}

/// Values keyed by their indices, written in decimal.
pub open spec fn indexed_entries(vs: Seq<JsonView>) -> Seq<(Seq<char>, JsonView)> {
    Seq::new(vs.len(), |i: int| (spec_decimal(i as nat), vs[i]))
}

/// A value as an array, where it is one: a string is the array of its
/// characters.
pub open spec fn array_of(v: JsonView) -> Option<Seq<JsonView>> {
    match v {
        JsonView::String(s) => Some(char_values(s)),
        JsonView::Array(a) => Some(a),
        _ => None,
    }
}

/// A value as an object, where it is one: a string or an array is keyed
/// by index, and `null` is none.
pub open spec fn object_of(v: JsonView) -> Option<Seq<(Seq<char>, JsonView)>> {
    match v {
        JsonView::String(s) => Some(indexed_entries(char_values(s))),
        JsonView::Array(a) => Some(indexed_entries(a)),
        JsonView::Object(o) => o,
        _ => None,
    }
}

proof fn lemma_indexed_keys_distinct(vs: Seq<JsonView>)
    ensures
        distinct_keys(indexed_entries(vs)),
{
    assert forall|i: int, j: int| 0 <= i < vs.len() && 0 <= j < vs.len() && i != j
        implies (#[trigger] indexed_entries(vs)[i]).0 != (#[trigger] indexed_entries(vs)[j]).0 by {
        lemma_decimal_injective(i as nat, j as nat);
    }
}

impl JsonValue {
    /// This value as an array, where it is one: a string gives the strings
    /// of its characters, an array a copy of itself.
    pub fn array(&self) -> (r: Option<Vec<JsonValue>>)
        ensures
            match array_of(json_view(*self)) {
                Some(a) => r matches Some(v) && array_view(v@) == a,
                None => r is None,
            },
    {
        match self {
            JsonValue::String(s) => {
                let chars = chars_of(s.as_str());
                let mut out: Vec<JsonValue> = Vec::new();
                let mut i: usize = 0;
                proof {
                    assert(array_view(out@) =~= char_values(s@).subrange(0, 0));
                }
                while i < chars.len()
                    invariant
                        i <= chars@.len(),
                        chars@ == s@,
                        array_view(out@) == char_values(s@).subrange(0, i as int),
                    decreases chars@.len() - i,
                {
                    let v = JsonValue::String(char_string(chars[i]));
                    proof {
                        lemma_array_view_push(out@, v);
                        assert(char_values(s@).subrange(0, i as int).push(json_view(v))
                            =~= char_values(s@).subrange(0, i + 1));
                    }
                    out.push(v);
                    i = i + 1;
                }
                proof {
                    assert(char_values(s@).subrange(0, i as int) =~= char_values(s@));
                }
                Some(out)
            },
            JsonValue::Array(a) => Some(duplicate_array(a)),
            _ => None,
        }
    }

    /// This value as an object, where it is one: a string or an array is
    /// keyed by index (`"0"`, `"1"`, ...), an object gives a copy of itself
    /// and `null` none.
    pub fn object(&self) -> (r: Option<JsonObject>)
        ensures
            match object_of(json_view(*self)) {
                Some(o) => r matches Some(x) && object_view(x) == o,
                None => r is None,
            },
    {
        match self {
            JsonValue::String(s) => {
                let chars = chars_of(s.as_str());
                let ghost target = indexed_entries(char_values(s@));
                let mut out: Vec<(String, JsonValue)> = Vec::new();
                let mut i: usize = 0;
                proof {
                    assert(entries_view(out@) =~= target.subrange(0, 0));
                }
                while i < chars.len()
                    invariant
                        i <= chars@.len(),
                        chars@ == s@,
                        target == indexed_entries(char_values(s@)),
                        entries_view(out@) == target.subrange(0, i as int),
                    decreases chars@.len() - i,
                {
                    let key = decimal_string(i as u64);
                    let v = JsonValue::String(char_string(chars[i]));
                    proof {
                        lemma_entries_view_push(out@, (key, v));
                        assert(target.subrange(0, i as int).push((key@, json_view(v))) =~= target.subrange(0, i + 1));
                    }
                    out.push((key, v));
                    i = i + 1;
                }
                proof {
                    assert(target.subrange(0, i as int) =~= target);
                    lemma_indexed_keys_distinct(char_values(s@));
                }
                Some(JsonObject { entries: out })
            },
            JsonValue::Array(a) => {
                let ghost target = indexed_entries(array_view(a@));
                proof {
                    lemma_array_view_len(a@);
                }
                let mut out: Vec<(String, JsonValue)> = Vec::new();
                let mut i: usize = 0;
                proof {
                    assert(entries_view(out@) =~= target.subrange(0, 0));
                }
                while i < a.len()
                    invariant
                        i <= a@.len(),
                        array_view(a@).len() == a@.len(),
                        target == indexed_entries(array_view(a@)),
                        entries_view(out@) == target.subrange(0, i as int),
                    decreases a@.len() - i,
                {
                    let key = decimal_string(i as u64);
                    let v = a[i].duplicate();
                    proof {
                        lemma_array_view_index(a@, i as int);
                        lemma_entries_view_push(out@, (key, v));
                        assert(target.subrange(0, i as int).push((key@, json_view(v))) =~= target.subrange(0, i + 1));
                    }
                    out.push((key, v));
                    i = i + 1;
                }
                proof {
                    assert(target.subrange(0, i as int) =~= target);
                    lemma_indexed_keys_distinct(array_view(a@));
                }
                Some(JsonObject { entries: out })
            },
            JsonValue::Object(Some(o)) => Some(o.duplicate_object()),
            _ => None,
        }
    }
}


/// Whether every character is an ASCII digit.
pub open spec fn all_digits(d: Seq<char>) -> bool {
    forall|i: int| 0 <= i < d.len() ==> '0' <= #[trigger] d[i] <= '9'
}

/// The number that a run of ASCII digits spells.
pub open spec fn digits_value(d: Seq<char>) -> nat
    decreases d.len(),
{
    if d.len() == 0 {
        0
    } else {
        digits_value(d.drop_last()) * 10 + ((d.last() as nat) - 48) as nat
    }
}

/// The integer that a text spells, as `str::parse::<i128>` reads it: an
/// optional `+` or `-`, then one or more ASCII digits, and a value that an
/// `i128` holds.
pub open spec fn parse_integer(s: Seq<char>) -> Option<i128> {
    if s.len() == 0 {
        None
    } else {
        let neg = s[0] == '-';
        let body = if s[0] == '-' || s[0] == '+' { s.drop_first() } else { s };
        if body.len() == 0 || !all_digits(body) {
            None
        } else {
            let v: int = if neg { -(digits_value(body) as int) } else { digits_value(body) as int };
            if i128::MIN <= v <= i128::MAX { Some(v as i128) } else { None }
        }
    }
}

/// A value as an integer: `undefined` and `null` are 0, a boolean 0 or 1,
/// a string the integer it spells (where it spells one), an array or an
/// object the number of its elements; a number is `rounded`, what it
/// rounds to as an `i128`.
pub open spec fn integer_of(v: JsonView, rounded: i128) -> Option<i128> {
    match v {
        JsonView::Undefined => Some(0),
        JsonView::Boolean(b) => Some(if b { 1 } else { 0 }),
        JsonView::Integer(i) => Some(i),
        JsonView::Number(_) => Some(rounded),
        JsonView::String(s) => parse_integer(s),
        JsonView::Object(None) => Some(0),
        JsonView::Array(a) => Some(a.len() as i128),
        JsonView::Object(Some(o)) => Some(o.len() as i128),
    }
}

proof fn lemma_digits_prefix_le(d: Seq<char>, k: int)
    requires
        0 <= k <= d.len(),
    ensures
        digits_value(d.subrange(0, k)) <= digits_value(d),
    decreases d.len(),
{
    if k < d.len() {
        assert(d.drop_last() =~= d.subrange(0, d.len() - 1));
        lemma_digits_prefix_le(d.drop_last(), k);
        assert(d.drop_last().subrange(0, k) =~= d.subrange(0, k));
    } else {
        assert(d.subrange(0, k) =~= d);
    }
}

/// Reads the digits `c[from..]`, negated where `neg`: none where the value
/// leaves the range of an `i128`.
fn digits_integer(c: &Vec<char>, from: usize, neg: bool) -> (r: Option<i128>)
    requires
        from <= c@.len(),
        all_digits(c@.subrange(from as int, c@.len() as int)),
    ensures
        ({
            let v: int = if neg { -(digits_value(c@.subrange(from as int, c@.len() as int)) as int) }
                else { digits_value(c@.subrange(from as int, c@.len() as int)) as int };
            if i128::MIN <= v <= i128::MAX { r == Some(v as i128) } else { r is None }
        }),
{
    let ghost body = c@.subrange(from as int, c@.len() as int);
    let mut acc: i128 = 0;
    let mut i = from;
    proof {
        assert(c@.subrange(from as int, from as int) =~= Seq::<char>::empty());
    }
    while i < c.len()
        invariant
            from <= i <= c@.len(),
            body == c@.subrange(from as int, c@.len() as int),
            all_digits(body),
            acc as int == if neg { -(digits_value(c@.subrange(from as int, i as int)) as int) }
                else { digits_value(c@.subrange(from as int, i as int)) as int },
        decreases c@.len() - i,
    {
        let ghost prefix = c@.subrange(from as int, (i + 1) as int);
        proof {
            assert(prefix.drop_last() =~= c@.subrange(from as int, i as int));
            assert(body[i - from] == c@[i as int]);
            assert(prefix.last() == c@[i as int]);
            assert(body.subrange(0, i + 1 - from) =~= prefix);
            lemma_digits_prefix_le(body, i + 1 - from);
        }
        let d = (c[i] as u32 - 48) as i128;
        let next = match acc.checked_mul(10) {
            Some(m) => if neg { m.checked_sub(d) } else { m.checked_add(d) },
            None => None,
        };
        match next {
            Some(n) => acc = n,
            None => {
                proof {
                    assert(digits_value(prefix) == digits_value(c@.subrange(from as int, i as int)) * 10 + d);
                }
                return None;
            },
        }
        i = i + 1;
    }
    proof {
        assert(c@.subrange(from as int, i as int) =~= body);
    }
    Some(acc)
}

/// The integer that a string spells, as `str::parse::<i128>` reads it.
fn parse_i128(s: &String) -> (r: Option<i128>)
    ensures
        r == parse_integer(s@),
{
    let c = chars_of(s.as_str());
    if c.len() == 0 {
        return None;
    }
    let neg = c[0] == '-';
    let from: usize = if c[0] == '-' || c[0] == '+' { 1 } else { 0 };
    let ghost body = c@.subrange(from as int, c@.len() as int);
    proof {
        if from == 1 {
            assert(body =~= s@.drop_first());
        } else {
            assert(body =~= s@);
        }
    }
    if from == c.len() {
        return None;
    }
    let mut i = from;
    while i < c.len()
        invariant
            from <= i <= c@.len(),
            from < c@.len(),
            c@ == s@,
            body == c@.subrange(from as int, c@.len() as int),
            body == (if s@[0] == '-' || s@[0] == '+' { s@.drop_first() } else { s@ }),
            forall|j: int| from <= j < i ==> '0' <= #[trigger] c@[j] <= '9',
        decreases c@.len() - i,
    {
        if c[i] < '0' || c[i] > '9' {
            proof {
                assert(body[i - from] == c@[i as int]);
                assert(!all_digits(body));
            }
            return None;
        }
        i = i + 1;
    }
    proof {
        assert forall|j: int| 0 <= j < body.len() implies '0' <= #[trigger] body[j] <= '9' by {
            assert(body[j] == c@[j + from]);
        }
    }
    digits_integer(&c, from, neg)
}

impl JsonValue {
    /// This value as an integer, where it is one; `rounded` is what a number
    /// value rounds to as an `i128` (`f64::round`, then `as i128`), and is
    /// read for numbers only.
    pub fn integer(&self, rounded: i128) -> (r: Option<i128>)
        ensures
            r == integer_of(json_view(*self), rounded),
    {
        match self {
            JsonValue::Undefined => Some(0),
            JsonValue::Boolean(b) => Some(if *b { 1 } else { 0 }),
            JsonValue::Integer(i) => Some(*i),
            JsonValue::Number(_) => Some(rounded),
            JsonValue::String(s) => parse_i128(s),
            JsonValue::Object(None) => Some(0),
            JsonValue::Array(a) => {
                proof {
                    lemma_array_view_len(a@);
                }
                Some(a.len() as i128)
            },
            JsonValue::Object(Some(o)) => Some(o.len() as i128),
        }
    }
}


impl<'a> JsonRef<'a> {
    /// The integer that this reference is to, if it is to one.
    pub fn integer(&self) -> (r: Option<&'a i128>)
        ensures
            match ref_view(*self) {
                JsonView::Integer(i) => r matches Some(x) && *x == i,
                _ => r is None,
            },
    {
        match self {
            JsonRef::Integer(i) => Some(*i),
            _ => None,
        }
    }

    /// The number that this reference is to (its bits), if it is to one.
    pub fn number(&self) -> (r: Option<&'a u64>)
        ensures
            match ref_view(*self) {
                JsonView::Number(n) => r matches Some(x) && *x == n,
                _ => r is None,
            },
    {
        match self {
            JsonRef::Number(n) => Some(*n),
            _ => None,
        }
    }

    /// The array that this reference is to, if it is to one.
    pub fn array(&self) -> (r: Option<&'a Vec<JsonValue>>)
        ensures
            match ref_view(*self) {
                JsonView::Array(a) => r matches Some(x) && array_view(x@) == a,
                _ => r is None,
            },
    {
        match self {
            JsonRef::Array(a) => Some(*a),
            _ => None,
        }
    }

    /// The object that this reference is to, if it is to one (not `null`).
    pub fn object(&self) -> (r: Option<&'a JsonObject>)
        ensures
            match ref_view(*self) {
                JsonView::Object(Some(o)) => r matches Some(x) && object_view(*x) == o,
                _ => r is None,
            },
    {
        match self {
            JsonRef::Object(Some(o)) => Some(o),
            _ => None,
        }
    }
}

impl<'a> JsonMutRef<'a> {
    /// The integer that this reference is to, if it is to one, to read or
    /// change.
    pub fn integer(&mut self) -> (r: Option<&mut i128>)
        ensures
            match mut_ref_view(old(self)) {
                JsonView::Integer(i) => r matches Some(x) && *x == i
                    && mut_ref_view(final(self)) == JsonView::Integer(*final(x)),
                _ => r is None,
            },
    {
        match self {
            JsonMutRef::Integer(i) => Some(&mut **i),
            _ => None,
        }
    }

    /// The number that this reference is to (its bits), if it is to one, to
    /// read or change.
    pub fn number(&mut self) -> (r: Option<&mut u64>)
        ensures
            match mut_ref_view(old(self)) {
                JsonView::Number(n) => r matches Some(x) && *x == n
                    && mut_ref_view(final(self)) == JsonView::Number(*final(x)),
                _ => r is None,
            },
    {
        match self {
            JsonMutRef::Number(n) => Some(&mut **n),
            _ => None,
        }
    }

    /// The array that this reference is to, if it is to one, to read or
    /// change.
    pub fn array(&mut self) -> (r: Option<&mut Vec<JsonValue>>)
        ensures
            match mut_ref_view(old(self)) {
                JsonView::Array(a) => !old(self).is_char() && (r matches Some(x) && array_view(x@) == a
                    && mut_ref_view(final(self)) == JsonView::Array(array_view(final(x)@))),
                _ => r is None,
            },
    {
        match self {
            JsonMutRef::Array(a) => Some(&mut **a),
            _ => None,
        }
    }

    /// The object that this reference is to, if it is to one (not `null`),
    /// to read or change.
    pub fn object(&mut self) -> (r: Option<&mut JsonObject>)
        ensures
            match mut_ref_view(old(self)) {
                JsonView::Object(Some(o)) => r matches Some(x) && object_view(*x) == o
                    && mut_ref_view(final(self)) == JsonView::Object(Some(object_view(*final(x)))),
                _ => r is None,
            },
    {
        match self {
            JsonMutRef::Object(o) => match &mut **o {
                Some(x) => Some(x),
                None => None,
            },
            _ => None,
        }
    }
}


/// The numbers of a value (their bits), in the order in which they are
/// written out.
pub open spec fn number_leaves(v: JsonView) -> Seq<u64>
    decreases v, 0nat,
{
    match v {
        JsonView::Number(n) => seq![n],
        JsonView::Array(a) => item_leaves(a, a.len()),
        JsonView::Object(Some(e)) => entry_leaves(e, e.len()),
        _ => seq![],
    }
}

/// The numbers of the first `n` values of `a`, in order.
pub open spec fn item_leaves(a: Seq<JsonView>, n: nat) -> Seq<u64>
    decreases a, n,
{
    if n == 0 || n > a.len() {
        seq![]
    } else {
        item_leaves(a, (n - 1) as nat) + number_leaves(a[n - 1])
    }
}

/// The numbers of the values of the first `n` entries of `e`, in order.
pub open spec fn entry_leaves(e: Seq<(Seq<char>, JsonView)>, n: nat) -> Seq<u64>
    decreases e, n,
{
    if n == 0 || n > e.len() {
        seq![]
    } else {
        proof {
            assert(decreases_to!(e => e[n - 1]));
        }
        entry_leaves(e, (n - 1) as nat) + number_leaves(e[n - 1].1)
    }
}

/// How deeply arrays and objects nest in a value.
pub open spec fn nesting(v: JsonView) -> nat
    decreases v, 0nat,
{
    match v {
        JsonView::Array(a) => 1 + items_nesting(a, a.len()),
        JsonView::Object(Some(e)) => 1 + entries_nesting(e, e.len()),
        _ => 0,
    }
}

/// The deepest nesting among the first `n` values of `a`.
pub open spec fn items_nesting(a: Seq<JsonView>, n: nat) -> nat
    decreases a, n,
{
    if n == 0 || n > a.len() {
        0
    } else {
        let x = items_nesting(a, (n - 1) as nat);
        let y = nesting(a[n - 1]);
        if x < y { y } else { x }
    }
}

/// The deepest nesting among the values of the first `n` entries of `e`.
pub open spec fn entries_nesting(e: Seq<(Seq<char>, JsonView)>, n: nat) -> nat
    decreases e, n,
{
    if n == 0 || n > e.len() {
        0
    } else {
        proof {
            assert(decreases_to!(e => e[n - 1]));
        }
        let x = entries_nesting(e, (n - 1) as nat);
        let y = nesting(e[n - 1].1);
        if x < y { y } else { x }
    }
}

proof fn lemma_item_leaves_grow(a: Seq<JsonView>, i: nat, n: nat)
    requires
        i <= n <= a.len(),
    ensures
        item_leaves(a, i).len() <= item_leaves(a, n).len(),
        items_nesting(a, i) <= items_nesting(a, n),
        i < n ==> nesting(a[i as int]) <= items_nesting(a, n),
    decreases n - i,
{
    if i < n {
        lemma_item_leaves_grow(a, i, (n - 1) as nat);
        if i + 1 < n {
            lemma_item_leaves_grow(a, i + 1, (n - 1) as nat);
        }
    }
}

proof fn lemma_entry_leaves_grow(e: Seq<(Seq<char>, JsonView)>, i: nat, n: nat)
    requires
        i <= n <= e.len(),
    ensures
        entry_leaves(e, i).len() <= entry_leaves(e, n).len(),
        entries_nesting(e, i) <= entries_nesting(e, n),
        i < n ==> nesting(e[i as int].1) <= entries_nesting(e, n),
    decreases n - i,
{
    if i < n {
        lemma_entry_leaves_grow(e, i, (n - 1) as nat);
        if i + 1 < n {
            lemma_entry_leaves_grow(e, i + 1, (n - 1) as nat);
        }
    }
}

impl JsonValue {
    /// The numbers of this value (their bits), in the order in which
    /// `stringify` and `string` write them out.
    pub fn numbers(&self) -> (r: Vec<u64>)
        ensures
            r@ == number_leaves(json_view(*self)),
        decreases self,
    {
        match self {
            JsonValue::Number(n) => vec![*n],
            JsonValue::Array(a) => {
                let ghost av = array_view(a@);
                proof {
                    lemma_array_view_len(a@);
                }
                let mut out: Vec<u64> = Vec::new();
                let mut i: usize = 0;
                while i < a.len()
                    invariant
                        i <= a@.len(),
                        *self == JsonValue::Array(*a),
                        av == array_view(a@),
                        av.len() == a@.len(),
                        out@ == item_leaves(av, i as nat),
                    decreases a@.len() - i,
                {
                    proof {
                        assert(decreases_to!(*self => (*self)->Array_0));
                        assert(decreases_to!(*a => a@));
                        assert(decreases_to!(a@ => a@[i as int]));
                        lemma_array_view_index(a@, i as int);
                    }
                    let inner = a[i].numbers();
                    let mut inner = inner;
                    out.append(&mut inner);
                    i = i + 1;
                }
                out
            },
            JsonValue::Object(Some(o)) => {
                let ghost ev = object_view(*o);
                proof {
                    lemma_entries_view_len(o.entries@);
                }
                let mut out: Vec<u64> = Vec::new();
                let mut i: usize = 0;
                while i < o.entries.len()
                    invariant
                        i <= o.entries@.len(),
                        *self == JsonValue::Object(Some(*o)),
                        ev == object_view(*o),
                        ev == entries_view(o.entries@),
                        ev.len() == o.entries@.len(),
                        out@ == entry_leaves(ev, i as nat),
                    decreases o.entries@.len() - i,
                {
                    proof {
                        assert(decreases_to!(*self => (*self)->Object_0));
                        assert(decreases_to!((*self)->Object_0 => (*self)->Object_0->Some_0));
                        assert(decreases_to!(*o => o.entries));
                        assert(decreases_to!(o.entries => o.entries@));
                        assert(decreases_to!(o.entries@ => o.entries@[i as int]));
                        assert(decreases_to!(o.entries@[i as int] => o.entries@[i as int].1));
                        lemma_entries_view_index(o.entries@, i as int);
                    }
                    let inner = o.entries[i].1.numbers();
                    let mut inner = inner;
                    out.append(&mut inner);
                    i = i + 1;
                }
                out
            },
            _ => Vec::new(),
        }
    }
}


/// The views of a list of strings.
pub open spec fn texts_of(v: Seq<String>) -> Seq<Seq<char>> {
    v.map_values(|s: String| s@)
}

/// The padding written before a value at indentation `n`: `n` spaces, and
/// one at the least (`format!("{:>n$}", " ")`).
pub open spec fn pad(n: nat) -> Seq<char> {
    if n <= 1 { seq![' '] } else { Seq::new(n, |i: int| ' ') }
}

/// An integer in decimal, with a `-` where it is negative.
pub open spec fn integer_text(i: i128) -> Seq<char> {
    if i < 0 { seq!['-'] + spec_decimal((-(i as int)) as nat) } else { spec_decimal(i as nat) }
}

/// A value other than an array or an object written out; a number is the
/// first of the texts `t`.
pub open spec fn scalar_text(v: JsonView, t: Seq<Seq<char>>) -> Seq<char> {
    match v {
        JsonView::Undefined => "undefined"@,
        JsonView::Boolean(b) => if b { "true"@ } else { "false"@ },
        JsonView::Integer(i) => integer_text(i),
        JsonView::Number(_) => t[0],
        JsonView::String(s) => s,
        JsonView::Object(None) => "null"@,
        _ => seq![],
    }
}

/// A value written out at indentation `ind`, each level of nesting
/// indented by `inc` more, elements parted by `sep`; `t` are the texts of
/// its numbers, in order.
pub open spec fn render(v: JsonView, ind: nat, inc: nat, sep: Seq<char>, t: Seq<Seq<char>>) -> Seq<char>
    decreases v, 1nat,
{
    pad(ind) + render_body(v, ind, inc, sep, t)
}

/// A value written out as `render` does, without the padding before it: an
/// object in braces, an array in brackets, a string in quotes.
pub open spec fn render_body(v: JsonView, ind: nat, inc: nat, sep: Seq<char>, t: Seq<Seq<char>>) -> Seq<char>
    decreases v, 0nat,
{
    match v {
        JsonView::Object(Some(e)) => seq!['{'] + render_entries(e, e.len(), ind + inc, inc, sep, t) + seq!['}'],
        JsonView::Array(a) => seq!['['] + render_items(a, a.len(), ind + inc, inc, sep, t) + seq![']'],
        JsonView::String(s) => seq!['"'] + s + seq!['"'],
        _ => scalar_text(v, t),
    }
}

/// The first `n` values of an array written out, parted by `sep`.
pub open spec fn render_items(a: Seq<JsonView>, n: nat, ind: nat, inc: nat, sep: Seq<char>, t: Seq<Seq<char>>) -> Seq<char>
    decreases a, n,
{
    if n == 0 || n > a.len() {
        seq![]
    } else {
        let off = item_leaves(a, (n - 1) as nat).len();
        let cur = render(a[n - 1], ind + inc, inc, sep, t.subrange(off as int, (off + number_leaves(a[n - 1]).len()) as int));
        if n == 1 { cur } else { render_items(a, (n - 1) as nat, ind, inc, sep, t) + sep + cur }
    }
}

/// The first `n` entries of an object written out, `key:value` after the
/// padding, parted by `sep`.
pub open spec fn render_entries(e: Seq<(Seq<char>, JsonView)>, n: nat, ind: nat, inc: nat, sep: Seq<char>, t: Seq<Seq<char>>) -> Seq<char>
    decreases e, n,
{
    if n == 0 || n > e.len() {
        seq![]
    } else {
        proof {
            assert(decreases_to!(e => e[n - 1]));
        }
        let off = entry_leaves(e, (n - 1) as nat).len();
        let cur = pad(ind) + e[n - 1].0 + seq![':']
            + render(e[n - 1].1, ind + inc, inc, sep, t.subrange(off as int, (off + number_leaves(e[n - 1].1).len()) as int));
        if n == 1 { cur } else { render_entries(e, (n - 1) as nat, ind, inc, sep, t) + sep + cur }
    }
}

/// A value as a string: a string is itself; anything else is written out
/// as `render_body` does, unindented, elements parted by `, `.
pub open spec fn string_spec(v: JsonView, t: Seq<Seq<char>>) -> Seq<char> {
    match v {
        JsonView::String(s) => s,
        _ => render_body(v, 0, 0, ", "@, t),
    }
}

proof fn lemma_indent_room(ind: int, inc: int, inner: int, outer: int)
    by (nonlinear_arith)
    requires
        0 <= inner,
        inner + 1 <= outer,
        0 <= inc,
    ensures
        ind + inc <= ind + 2 * inc * outer,
        ind + 2 * inc + 2 * inc * inner <= ind + 2 * inc * outer,
{
}

fn spaces(n: usize) -> (s: String)
    ensures
        s@ == pad(n as nat),
{
    let count: usize = if n <= 1 { 1 } else { n };
    let mut s = String::new();
    let mut i: usize = 0;
    while i < count
        invariant
            i <= count,
            s@ == Seq::new(i as nat, |j: int| ' '),
        decreases count - i,
    {
        crate::text::push_char(&mut s, ' ');
        i = i + 1;
        proof {
            assert(s@ =~= Seq::new(i as nat, |j: int| ' '));
        }
    }
    proof {
        assert(s@ =~= pad(n as nat));
    }
    s
}

fn integer_string(i: i128) -> (s: String)
    ensures
        s@ == integer_text(i),
{
    if i < 0 {
        let m: u128 = if i == i128::MIN { 0x8000_0000_0000_0000_0000_0000_0000_0000u128 } else { (-i) as u128 };
        let mut s = crate::text::char_string('-');
        let digits = wide_decimal_string(m);
        s.append(digits.as_str());
        s
    } else {
        wide_decimal_string(i as u128)
    }
}

proof fn lemma_slice(tv: Seq<Seq<char>>, from: int, whole: int, off: int, len: int)
    requires
        0 <= from,
        0 <= off,
        0 <= len,
        off + len <= whole,
        from + whole <= tv.len(),
    ensures
        tv.subrange(from, from + whole).subrange(off, off + len) == tv.subrange(from + off, from + off + len),
{
    assert(tv.subrange(from, from + whole).subrange(off, off + len) =~= tv.subrange(from + off, from + off + len));
}

/// Writes a value out as `render_body` does; its numbers' texts are those of
/// `texts` from `from` on. Gives the text and how many texts it used.
fn render_value(v: &JsonValue, ind: usize, inc: usize, sep: &str, texts: &Vec<String>, from: usize) -> (r: (String, usize))
    requires
        from + number_leaves(json_view(*v)).len() <= texts@.len(),
        ind + 2 * inc * nesting(json_view(*v)) <= usize::MAX,
    ensures
        r.1 == number_leaves(json_view(*v)).len(),
        r.0@ == render_body(json_view(*v), ind as nat, inc as nat, sep@,
            texts_of(texts@).subrange(from as int, from + r.1)),
    decreases v,
{
    let ghost tv = texts_of(texts@);
    match v {
        JsonValue::Undefined => (String::from_str("undefined"), 0),
        JsonValue::Boolean(b) => if *b { (String::from_str("true"), 0) } else { (String::from_str("false"), 0) },
        JsonValue::Integer(i) => (integer_string(*i), 0),
        JsonValue::Number(_) => {
            proof {
                assert(tv.subrange(from as int, from + 1)[0] == texts@[from as int]@);
            }
            (texts[from].clone(), 1)
        },
        JsonValue::String(s) => {
            let mut out = crate::text::char_string('"');
            out.append(s.as_str());
            crate::text::push_char(&mut out, '"');
            (out, 0)
        },
        JsonValue::Object(None) => (String::from_str("null"), 0),
        JsonValue::Array(a) => {
            let ghost av = array_view(a@);
            let ghost whole = number_leaves(json_view(*v)).len();
            let ghost tt = tv.subrange(from as int, from + whole);
            proof {
                lemma_array_view_len(a@);
                lemma_item_leaves_grow(av, 0, av.len());
                lemma_indent_room(ind as int, inc as int, 0, nesting(json_view(*v)) as int);
            }
            let ind1 = ind + inc;
            let total = texts.len();
            let mut body = String::new();
            let mut k = from;
            let mut i: usize = 0;
            while i < a.len()
                invariant
                    i <= a@.len(),
                    *v == JsonValue::Array(*a),
                    av == array_view(a@),
                    av.len() == a@.len(),
                    tv == texts_of(texts@),
                    whole == item_leaves(av, av.len()).len(),
                    tt == tv.subrange(from as int, from + whole),
                    from + whole <= texts@.len(),
                    total == texts@.len(),
                    ind1 == ind + inc,
                    ind + 2 * inc * nesting(json_view(*v)) <= usize::MAX,
                    nesting(json_view(*v)) == 1 + items_nesting(av, av.len()),
                    k == from + item_leaves(av, i as nat).len(),
                    body@ == render_items(av, i as nat, ind1 as nat, inc as nat, sep@, tt),
                decreases a@.len() - i,
            {
                proof {
                    assert(decreases_to!(*v => (*v)->Array_0));
                    assert(decreases_to!(*a => a@));
                    assert(decreases_to!(a@ => a@[i as int]));
                    lemma_array_view_index(a@, i as int);
                    lemma_item_leaves_grow(av, (i + 1) as nat, av.len());
                    lemma_item_leaves_grow(av, i as nat, av.len());
                    lemma_indent_room(ind as int, inc as int, nesting(av[i as int]) as int, nesting(json_view(*v)) as int);
                }
                let ghost off = item_leaves(av, i as nat).len();
                let ghost len = number_leaves(av[i as int]).len();
                let lead = spaces(ind1 + inc);
                let (inner, used) = render_value(&a[i], ind1 + inc, inc, sep, texts, k);
                proof {
                    assert(item_leaves(av, (i + 1) as nat) == item_leaves(av, i as nat) + number_leaves(av[i as int]));
                    lemma_slice(tv, from as int, whole as int, off as int, len as int);
                }
                let ghost before = body@;
                if i > 0 {
                    body.append(sep);
                }
                body.append(lead.as_str());
                body.append(inner.as_str());
                proof {
                    let cur = render(av[i as int], (ind1 + inc) as nat, inc as nat, sep@, tt.subrange(off as int, (off + len) as int));
                    assert(cur == lead@ + inner@);
                    if i == 0 {
                        assert(body@ =~= cur);
                    } else {
                        assert(body@ =~= before + sep@ + cur);
                    }
                }
                proof {
                    assert(used == len);
                    assert(off + len <= whole);
                }
                k = k + used;
                i = i + 1;
            }
            let mut out = crate::text::char_string('[');
            out.append(body.as_str());
            crate::text::push_char(&mut out, ']');
            proof {
                assert(out@ =~= seq!['['] + body@ + seq![']']);
            }
            (out, k - from)
        },
        JsonValue::Object(Some(o)) => {
            let ghost ev = object_view(*o);
            let ghost whole = number_leaves(json_view(*v)).len();
            let ghost tt = tv.subrange(from as int, from + whole);
            proof {
                lemma_entries_view_len(o.entries@);
                lemma_entry_leaves_grow(ev, 0, ev.len());
                lemma_indent_room(ind as int, inc as int, 0, nesting(json_view(*v)) as int);
            }
            let ind1 = ind + inc;
            let total = texts.len();
            let mut body = String::new();
            let mut k = from;
            let mut i: usize = 0;
            while i < o.entries.len()
                invariant
                    i <= o.entries@.len(),
                    *v == JsonValue::Object(Some(*o)),
                    ev == object_view(*o),
                    ev == entries_view(o.entries@),
                    ev.len() == o.entries@.len(),
                    tv == texts_of(texts@),
                    whole == entry_leaves(ev, ev.len()).len(),
                    tt == tv.subrange(from as int, from + whole),
                    from + whole <= texts@.len(),
                    total == texts@.len(),
                    ind1 == ind + inc,
                    ind + 2 * inc * nesting(json_view(*v)) <= usize::MAX,
                    nesting(json_view(*v)) == 1 + entries_nesting(ev, ev.len()),
                    k == from + entry_leaves(ev, i as nat).len(),
                    body@ == render_entries(ev, i as nat, ind1 as nat, inc as nat, sep@, tt),
                decreases o.entries@.len() - i,
            {
                proof {
                    assert(decreases_to!(*v => (*v)->Object_0));
                    assert(decreases_to!((*v)->Object_0 => (*v)->Object_0->Some_0));
                    assert(decreases_to!(*o => o.entries));
                    assert(decreases_to!(o.entries => o.entries@));
                    assert(decreases_to!(o.entries@ => o.entries@[i as int]));
                    assert(decreases_to!(o.entries@[i as int] => o.entries@[i as int].1));
                    lemma_entries_view_index(o.entries@, i as int);
                    lemma_entry_leaves_grow(ev, (i + 1) as nat, ev.len());
                    lemma_entry_leaves_grow(ev, i as nat, ev.len());
                    lemma_indent_room(ind as int, inc as int, nesting(ev[i as int].1) as int, nesting(json_view(*v)) as int);
                }
                let ghost off = entry_leaves(ev, i as nat).len();
                let ghost len = number_leaves(ev[i as int].1).len();
                let head = spaces(ind1);
                let lead = spaces(ind1 + inc);
                let (inner, used) = render_value(&o.entries[i].1, ind1 + inc, inc, sep, texts, k);
                proof {
                    assert(entry_leaves(ev, (i + 1) as nat) == entry_leaves(ev, i as nat) + number_leaves(ev[i as int].1));
                    lemma_slice(tv, from as int, whole as int, off as int, len as int);
                }
                let ghost before = body@;
                if i > 0 {
                    body.append(sep);
                }
                body.append(head.as_str());
                body.append(o.entries[i].0.as_str());
                crate::text::push_char(&mut body, ':');
                body.append(lead.as_str());
                body.append(inner.as_str());
                proof {
                    let cur = pad(ind1 as nat) + ev[i as int].0 + seq![':']
                        + render(ev[i as int].1, (ind1 + inc) as nat, inc as nat, sep@, tt.subrange(off as int, (off + len) as int));
                    if i == 0 {
                        assert(body@ =~= cur);
                    } else {
                        assert(body@ =~= before + sep@ + cur);
                    }
                }
                proof {
                    assert(used == len);
                    assert(off + len <= whole);
                }
                k = k + used;
                i = i + 1;
            }
            let mut out = crate::text::char_string('{');
            out.append(body.as_str());
            crate::text::push_char(&mut out, '}');
            proof {
                assert(out@ =~= seq!['{'] + body@ + seq!['}']);
            }
            (out, k - from)
        },
    }
}


impl JsonValue {
    /// This value as a string: a string is itself; `undefined`, `null`,
    /// booleans and integers are their words and numerals; an array or an
    /// object is written out on one line, elements parted by `, `, an
    /// object's keys unquoted. `numbers` are the texts of the value's
    /// numbers, in the order of `numbers()`.
    pub fn string(&self, numbers: &Vec<String>) -> (s: String)
        requires
            numbers@.len() == number_leaves(json_view(*self)).len(),
        ensures
            s@ == string_spec(json_view(*self), texts_of(numbers@)),
    {
        match self {
            JsonValue::String(s) => s.clone(),
            _ => {
                let (text, used) = render_value(self, 0, 0, ", ", numbers, 0);
                proof {
                    assert(texts_of(numbers@).subrange(0, used as int) =~= texts_of(numbers@));
                }
                text
            },
        }
    }
}

/// A value written out with the given indentation step (none is zero),
/// elements parted by `,` and a line break; `numbers` are the texts of the
/// value's numbers, in the order of `numbers()`.
pub fn stringify(value: &JsonValue, indent: Option<usize>, numbers: &Vec<String>) -> (s: String)
    requires
        numbers@.len() == number_leaves(json_view(*value)).len(),
        2 * (match indent { Some(n) => n as int, None => 0 }) * nesting(json_view(*value)) <= usize::MAX,
    ensures
        s@ == render(json_view(*value), 0, match indent { Some(n) => n as nat, None => 0 }, ",\n"@, texts_of(numbers@)),
{
    let inc: usize = match indent {
        Some(n) => n,
        None => 0,
    };
    let mut out = spaces(0);
    let (text, used) = render_value(value, 0, inc, ",\n", numbers, 0);
    proof {
        assert(texts_of(numbers@).subrange(0, used as int) =~= texts_of(numbers@));
    }
    out.append(text.as_str());
    out
}


/// The type that a conversion wanted, and the value it was given.
pub open spec fn json_error_parts(e: JsonError) -> (Seq<char>, JsonView) {
    match e {
        JsonError::NotABoolean(v) => ("boolean"@, json_view(v)),
        JsonError::NotAnInteger(v) => ("integer"@, json_view(v)),
        JsonError::NotANumber(v) => ("number"@, json_view(v)),
        JsonError::NotAString(v) => ("string"@, json_view(v)),
        JsonError::NotAnArray(v) => ("array"@, json_view(v)),
        JsonError::NotAnObject(v) => ("object"@, json_view(v)),
    }
}

/// The message of a conversion error: `Failed to convert value as type to
/// wanted!`.
pub open spec fn json_error_text(e: JsonError, t: Seq<Seq<char>>) -> Seq<char> {
    let (wanted, v) = json_error_parts(e);
    "Failed to convert "@ + string_spec(v, t) + " as "@ + type_label(v) + " to "@ + wanted + "!"@
}

impl JsonError {
    /// The type wanted and the value given.
    pub fn data(&self) -> (r: (&'static str, &JsonValue))
        ensures
            r.0@ == json_error_parts(*self).0,
            json_view(*r.1) == json_error_parts(*self).1,
    {
        match self {
            JsonError::NotABoolean(v) => ("boolean", v),
            JsonError::NotAnInteger(v) => ("integer", v),
            JsonError::NotANumber(v) => ("number", v),
            JsonError::NotAString(v) => ("string", v),
            JsonError::NotAnArray(v) => ("array", v),
            JsonError::NotAnObject(v) => ("object", v),
        }
    }

    /// The message of this error; `numbers` are the texts of the numbers of
    /// the value it holds, in the order of `numbers()`.
    pub fn to_string(&self, numbers: &Vec<String>) -> (s: String)
        requires
            numbers@.len() == number_leaves(json_error_parts(*self).1).len(),
        ensures
            s@ == json_error_text(*self, texts_of(numbers@)),
    {
        let (wanted, v) = self.data();
        let mut s = String::from_str("Failed to convert ");
        s.append(v.string(numbers).as_str());
        s.append(" as ");
        s.append(v.type_of());
        s.append(" to ");
        s.append(wanted);
        s.append("!");
        s
    }
}

/// A boolean value.
impl From<bool> for JsonValue {
    fn from(value: bool) -> (v: JsonValue) {
        JsonValue::Boolean(value)
    }
}

impl vstd::std_specs::convert::FromSpecImpl<bool> for JsonValue {
    open spec fn obeys_from_spec() -> bool {
        true
    }

    open spec fn from_spec(value: bool) -> JsonValue {
        JsonValue::Boolean(value)
    }
}

/// An integer value from a `u8`.
impl From<u8> for JsonValue {
    fn from(value: u8) -> (v: JsonValue) {
        JsonValue::Integer(value as i128)
    }
}

impl vstd::std_specs::convert::FromSpecImpl<u8> for JsonValue {
    open spec fn obeys_from_spec() -> bool {
        true
    }

    open spec fn from_spec(value: u8) -> JsonValue {
        JsonValue::Integer(value as i128)
    }
}

/// An integer value from a `i8`.
impl From<i8> for JsonValue {
    fn from(value: i8) -> (v: JsonValue) {
        JsonValue::Integer(value as i128)
    }
}

impl vstd::std_specs::convert::FromSpecImpl<i8> for JsonValue {
    open spec fn obeys_from_spec() -> bool {
        true
    }

    open spec fn from_spec(value: i8) -> JsonValue {
        JsonValue::Integer(value as i128)
    }
}

/// An integer value from a `u16`.
impl From<u16> for JsonValue {
    fn from(value: u16) -> (v: JsonValue) {
        JsonValue::Integer(value as i128)
    }
}

impl vstd::std_specs::convert::FromSpecImpl<u16> for JsonValue {
    open spec fn obeys_from_spec() -> bool {
        true
    }

    open spec fn from_spec(value: u16) -> JsonValue {
        JsonValue::Integer(value as i128)
    }
}

/// An integer value from a `i16`.
impl From<i16> for JsonValue {
    fn from(value: i16) -> (v: JsonValue) {
        JsonValue::Integer(value as i128)
    }
}

impl vstd::std_specs::convert::FromSpecImpl<i16> for JsonValue {
    open spec fn obeys_from_spec() -> bool {
        true
    }

    open spec fn from_spec(value: i16) -> JsonValue {
        JsonValue::Integer(value as i128)
    }
}

/// An integer value from a `u32`.
impl From<u32> for JsonValue {
    fn from(value: u32) -> (v: JsonValue) {
        JsonValue::Integer(value as i128)
    }
}

impl vstd::std_specs::convert::FromSpecImpl<u32> for JsonValue {
    open spec fn obeys_from_spec() -> bool {
        true
    }

    open spec fn from_spec(value: u32) -> JsonValue {
        JsonValue::Integer(value as i128)
    }
}

/// An integer value from a `i32`.
impl From<i32> for JsonValue {
    fn from(value: i32) -> (v: JsonValue) {
        JsonValue::Integer(value as i128)
    }
}

impl vstd::std_specs::convert::FromSpecImpl<i32> for JsonValue {
    open spec fn obeys_from_spec() -> bool {
        true
    }

    open spec fn from_spec(value: i32) -> JsonValue {
        JsonValue::Integer(value as i128)
    }
}

/// An integer value from a `u64`.
impl From<u64> for JsonValue {
    fn from(value: u64) -> (v: JsonValue) {
        JsonValue::Integer(value as i128)
    }
}

impl vstd::std_specs::convert::FromSpecImpl<u64> for JsonValue {
    open spec fn obeys_from_spec() -> bool {
        true
    }

    open spec fn from_spec(value: u64) -> JsonValue {
        JsonValue::Integer(value as i128)
    }
}

/// An integer value from a `i64`.
impl From<i64> for JsonValue {
    fn from(value: i64) -> (v: JsonValue) {
        JsonValue::Integer(value as i128)
    }
}

impl vstd::std_specs::convert::FromSpecImpl<i64> for JsonValue {
    open spec fn obeys_from_spec() -> bool {
        true
    }

    open spec fn from_spec(value: i64) -> JsonValue {
        JsonValue::Integer(value as i128)
    }
}

/// An integer value.
impl From<i128> for JsonValue {
    fn from(value: i128) -> (v: JsonValue) {
        JsonValue::Integer(value)
    }
}

impl vstd::std_specs::convert::FromSpecImpl<i128> for JsonValue {
    open spec fn obeys_from_spec() -> bool {
        true
    }

    open spec fn from_spec(value: i128) -> JsonValue {
        JsonValue::Integer(value)
    }
}

/// A string value.
impl From<String> for JsonValue {
    fn from(value: String) -> (v: JsonValue) {
        JsonValue::String(value)
    }
}

impl vstd::std_specs::convert::FromSpecImpl<String> for JsonValue {
    open spec fn obeys_from_spec() -> bool {
        true
    }

    open spec fn from_spec(value: String) -> JsonValue {
        JsonValue::String(value)
    }
}

/// An array value.
impl From<Vec<JsonValue>> for JsonValue {
    fn from(value: Vec<JsonValue>) -> (v: JsonValue) {
        JsonValue::Array(value)
    }
}

impl vstd::std_specs::convert::FromSpecImpl<Vec<JsonValue>> for JsonValue {
    open spec fn obeys_from_spec() -> bool {
        true
    }

    open spec fn from_spec(value: Vec<JsonValue>) -> JsonValue {
        JsonValue::Array(value)
    }
}

/// A string value of one character.
impl From<char> for JsonValue {
    fn from(value: char) -> (v: JsonValue)
        ensures
            json_view(v) == JsonView::String(seq![value]),
    {
        JsonValue::String(char_string(value))
    }
}

/// Only the view of what `from` gives is stated (in its `ensures`): a new
/// `String` is equal to another only by its view.
impl vstd::std_specs::convert::FromSpecImpl<char> for JsonValue {
    open spec fn obeys_from_spec() -> bool {
        false
    }

    open spec fn from_spec(value: char) -> JsonValue {
        JsonValue::Undefined
    }
}

/// A string value.
impl<'a> From<&'a str> for JsonValue {
    fn from(value: &'a str) -> (v: JsonValue)
        ensures
            json_view(v) == JsonView::String(value@),
    {
        JsonValue::String(String::from_str(value))
    }
}

/// Only the view of what `from` gives is stated (in its `ensures`): a new
/// `String` is equal to another only by its view.
impl<'a> vstd::std_specs::convert::FromSpecImpl<&'a str> for JsonValue {
    open spec fn obeys_from_spec() -> bool {
        false
    }

    open spec fn from_spec(value: &'a str) -> JsonValue {
        JsonValue::Undefined
    }
}

} // verus!
