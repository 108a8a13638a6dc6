//! The state of the config overlay: the rows it shows, the SSH domains it
//! manages, and how each key press changes it.
use vstd::prelude::*;
use crate::overlay_data::{
    domain_field_value, set_domain_field, spec_domain_field_value, spec_set_domain_field,
    DomainEntry, DomainSource, FieldKind, SshDomainConfig, SshDomainView,
};
use vstd::arithmetic::power2::{pow2, lemma2_to64, lemma2_to64_rest, lemma_pow2_strictly_increases, lemma_pow2_unfold, lemma_pow2_pos};
use crate::text::{
    chars_of, decimal_of, decimal_value, find_char_in, first_index_of, is_digit,
    lemma_decimal_of, lemma_first_index_prefix, owned, parse_unsigned, parse_unsigned_exec,
    push_decimal, push_str_chars, string_from_range, trim_bounds, trim_end_all, trim_start_all,
    unsigned_digits,
};

verus! {

/// Sentinel row type for "Add SSH Domain..." action.
pub const ADD_DOMAIN_FIELD_NAME: &'static str = "__add_ssh_domain__";

/// Sentinel row type for "Delete Domain" action.
pub const DELETE_DOMAIN_FIELD_NAME: &'static str = "__delete_domain__";

/// Status of a config field relative to the overlay proposal.
#[derive(Debug, Clone, Copy, PartialEq, Eq, Structural)]
pub enum FieldStatus {
    /// No proposal — using the default/Lua value.
    Inherited,
    /// Proposal matches effective value.
    Editable,
    /// Proposal differs from effective value — Lua overrode it.
    FixedByLua,
}

/// Info for a domain group header row.
#[derive(Debug, Clone, Copy, PartialEq, Eq, Structural)]
pub struct DomainHeaderInfo {
    pub domain_index: usize,
    pub source: DomainSource,
    pub expanded: bool,
}

/// What remains of a domain row's field name once the `__domain_` prefix
/// and the `__` suffix are trimmed (each as often as it repeats).
pub open spec fn domain_name_body(field_name: Seq<char>) -> Seq<char> {
    trim_end_all(trim_start_all(field_name, "__domain_"@), "__"@)
}

/// The field key of a domain child row name `__domain_N_fieldkey__`: what
/// follows the first `_` of the trimmed body, if the body has one.
pub open spec fn spec_extract_domain_field_key(field_name: Seq<char>) -> Option<Seq<char>> {
    let body = domain_name_body(field_name);
    let pos = first_index_of(body, '_');
    if pos >= 0 {
        Some(body.skip(pos + 1))
    } else {
        None
    }
}

/// The domain index and field key of a domain child row name
/// `__domain_N_fieldkey__`: the body before its first `_` must read as a
/// `usize`.
pub open spec fn spec_parse_domain_field_name(field_name: Seq<char>) -> Option<(int, Seq<char>)> {
    let body = domain_name_body(field_name);
    let pos = first_index_of(body, '_');
    if pos >= 0 {
        match parse_unsigned(body.take(pos), usize::MAX as int) {
            Some(idx) => Some((idx, body.skip(pos + 1))),
            None => None,
        }
    } else {
        None
    }
}

/// Trims `field_name` as `domain_name_body` does, and finds the first `_`
/// of the body: (characters, body start, body end, position of the `_`).
fn split_domain_name(field_name: &str) -> (r: (Vec<char>, usize, usize, Option<usize>))
    ensures
        r.0@ == field_name@,
        r.1 <= r.2 <= r.0@.len(),
        r.0@.subrange(r.1 as int, r.2 as int) == domain_name_body(field_name@),
        match r.3 {
            Some(p) => r.1 <= p < r.2 && p - r.1 == first_index_of(domain_name_body(field_name@), '_'),
            None => first_index_of(domain_name_body(field_name@), '_') < 0,
        },
{
    let cs = chars_of(field_name);
    let start = chars_of("__domain_");
    let end = chars_of("__");
    proof {
        reveal_strlit("__domain_");
        reveal_strlit("__");
    }
    let (from, to) = trim_bounds(&cs, &start, &end);
    let pos = find_char_in(&cs, from, to, '_');
    (cs, from, to, pos)
}

/// Extract the field key from a domain child field name like `__domain_2_remote_address__`.
pub fn extract_domain_field_key(field_name: &str) -> (r: Option<String>)
    ensures
        match r {
            Some(k) => spec_extract_domain_field_key(field_name@) == Some(k@),
            None => spec_extract_domain_field_key(field_name@) is None,
        },
{
    let (cs, from, to, pos) = split_domain_name(field_name);
    match pos {
        Some(p) => {
            let key = string_from_range(&cs, p + 1, to);
            let ghost body = cs@.subrange(from as int, to as int);
            assert(key@ =~= body.skip(p - from + 1));
            Some(key)
        },
        None => None,
    }
}

/// Parse a domain field name into (domain_index, field_key).
pub fn parse_domain_field_name(field_name: &str) -> (r: Option<(usize, String)>)
    ensures
        match r {
            Some((idx, key)) => spec_parse_domain_field_name(field_name@) == Some((idx as int, key@)),
            None => spec_parse_domain_field_name(field_name@) is None,
        },
{
    let (cs, from, to, pos) = split_domain_name(field_name);
    match pos {
        Some(p) => {
            let ghost body = cs@.subrange(from as int, to as int);
            let parsed = parse_unsigned_exec(&cs, from, p, usize::MAX as u64);
            assert(cs@.subrange(from as int, p as int) =~= body.take(p - from));
            match parsed {
                Some(idx) => {
                    let key = string_from_range(&cs, p + 1, to);
                    assert(key@ =~= body.skip(p - from + 1));
                    Some((idx as usize, key))
                },
                None => None,
            }
        },
        None => None,
    }
}

/// The name of the row showing field `key` of domain `idx`.
pub open spec fn domain_child_text(idx: nat, key: Seq<char>) -> Seq<char> {
    "__domain_"@ + decimal_of(idx) + "_"@ + key + "__"@
}

/// The name of the row showing field `key` of domain `idx`:
/// `__domain_{idx}_{key}__`.
pub fn domain_child_field_name(idx: usize, key: &str) -> (r: String)
    ensures
        r@ == domain_child_text(idx as nat, key@),
{
    let mut out = String::new();
    push_str_chars(&mut out, "__domain_");
    push_decimal(&mut out, idx as u64);
    push_str_chars(&mut out, "_");
    push_str_chars(&mut out, key);
    push_str_chars(&mut out, "__");
    assert(out@ =~= domain_child_text(idx as nat, key@));
    out
}

proof fn lemma_no_char_first_index(s: Seq<char>, c: char)
    requires
        forall|i: int| 0 <= i < s.len() ==> #[trigger] s[i] != c,
    ensures
        first_index_of(s, c) == -1,
    decreases s.len(),
{
    if s.len() > 0 {
        lemma_no_char_first_index(s.drop_last(), c);
    }
}

/// `s` ends with `p`.
pub open spec fn ends_with(s: Seq<char>, p: Seq<char>) -> bool {
    s.len() >= p.len() && s.skip(s.len() - p.len()) == p
}

/// A domain child row name reads back as the domain index and field key it
/// was built from, unless the digits, `_` and key themselves end in `__`
/// (which the trimming of the name would eat).
pub proof fn lemma_domain_child_name_round_trip(idx: nat, key: Seq<char>)
    requires
        idx <= usize::MAX,
        !ends_with(decimal_of(idx) + "_"@ + key, "__"@),
    ensures
        spec_parse_domain_field_name(domain_child_text(idx, key)) == Some((idx as int, key)),
        spec_extract_domain_field_key(domain_child_text(idx, key)) == Some(key),
{
    reveal_strlit("__domain_");
    reveal_strlit("_");
    reveal_strlit("__");
    let d = decimal_of(idx);
    lemma_decimal_of(idx);
    let body = d + "_"@ + key;
    let full = domain_child_text(idx, key);
    let prefix = "__domain_"@;
    let tail = body + "__"@;
    assert(full =~= prefix + tail);
    assert(full.take(prefix.len() as int) =~= prefix);
    assert(full.skip(prefix.len() as int) =~= tail);
    assert(is_digit(tail[0]));
    assert(prefix[0] == '_');
    assert(tail[0] == d[0]);
    if tail.len() >= prefix.len() {
        assert(tail.take(prefix.len() as int)[0] == tail[0]);
        assert(tail.take(prefix.len() as int) != prefix);
    }
    assert(trim_start_all(tail, prefix) == tail);
    assert(trim_start_all(full, prefix) == tail);
    assert(tail.skip(tail.len() - 2) =~= "__"@);
    assert(tail.take(tail.len() - 2) =~= body);
    assert(trim_end_all(body, "__"@) == body);
    assert(domain_name_body(full) == body);
    assert forall|i: int| 0 <= i < d.len() implies #[trigger] d[i] != '_' by {
        assert(is_digit(d[i]));
    }
    lemma_no_char_first_index(d, '_');
    assert(body.take(d.len() as int + 1) =~= d.push('_'));
    assert(d.push('_').drop_last() =~= d);
    assert(first_index_of(d.push('_'), '_') == d.len());
    lemma_first_index_prefix(body, d.len() as int + 1, '_');
    assert(first_index_of(body, '_') == d.len());
    assert(body.take(d.len() as int) =~= d);
    assert(body.skip(d.len() as int + 1) =~= key);
    assert(unsigned_digits(d) == d);
    assert(decimal_value(d) == idx);
}

/// Which panel currently has focus.
#[derive(Debug, Clone, Copy, PartialEq, Eq, Structural)]
pub enum Panel {
    Sections,
    Settings,
}

/// State for inline editing of a field value.
#[derive(Debug)]
pub struct InlineEdit {
    pub field_name: String,
    pub buffer: String,
    pub kind: FieldKind,
}

/// State for the enum selection popup.
#[derive(Debug)]
pub struct EnumPicker {
    pub field_name: String,
    pub variants: Vec<(String, String)>,
    pub selected: usize,
}

/// The name the inline editor edits while a new domain is being named.
pub const NEW_DOMAIN_FIELD_NAME: &'static str = "__new_domain_name__";

/// The SSH domains the overlay shows, and the domain being added.
#[derive(Debug)]
pub struct DomainState {
    /// Domain entries (Lua-sourced + overlay-sourced).
    pub entries: Vec<DomainEntry>,
    /// Domain being added (None = not adding one).
    pub adding: Option<SshDomainConfig>,
    /// Whether `entries` has been modified.
    pub dirty: bool,
}

/// No two entries share a name.
pub open spec fn names_unique(entries: Seq<DomainEntry>) -> bool {
    forall|i: int, j: int|
        0 <= i < j < entries.len() ==> (#[trigger] entries[i]).config.name@ != (#[trigger] entries[j]).config.name@
}

/// Some entry is named `name`.
pub open spec fn has_domain_named(entries: Seq<DomainEntry>, name: Seq<char>) -> bool {
    exists|i: int| 0 <= i < entries.len() && (#[trigger] entries[i]).config.name@ == name
}

/// The configs of the overlay-managed entries, in order.
pub open spec fn overlay_configs(entries: Seq<DomainEntry>) -> Seq<SshDomainView>
    decreases entries.len(),
{
    if entries.len() == 0 {
        Seq::empty()
    } else {
        let rest = overlay_configs(entries.drop_last());
        if entries.last().source == DomainSource::Overlay {
            rest.push(entries.last().config@)
        } else {
            rest
        }
    }
}

/// Entry `i` with its field `key` set from `value`.
pub open spec fn entry_with_field(e: DomainEntry, key: Seq<char>, value: Seq<char>) -> SshDomainView {
    spec_set_domain_field(e.config@, key, value)
}

/// The text a boolean domain field toggles to.
pub open spec fn toggled_text(current: Seq<char>) -> Seq<char> {
    if current == "On"@ {
        "Off"@
    } else {
        "On"@
    }
}

impl DomainState {
    /// Whether some entry is named `name`.
    pub(crate) fn contains_name(&self, name: &String) -> (r: bool)
        ensures
            r == has_domain_named(self.entries@, name@),
    {
        let mut i: usize = 0;
        while i < self.entries.len()
            invariant
                i <= self.entries@.len(),
                forall|j: int| 0 <= j < i ==> (#[trigger] self.entries@[j]).config.name@ != name@,
            decreases self.entries@.len() - i,
        {
            if self.entries[i].config.name == *name {
                return true;
            }
            i += 1;
        }
        false
    }

    /// Set field `key` of entry `idx` from `value`, whatever its source.
    pub(crate) fn set_entry_field(&mut self, idx: usize, key: &str, value: &str)
        requires
            idx < old(self).entries@.len(),
        ensures
            final(self).entries@.len() == old(self).entries@.len(),
            final(self).entries@[idx as int].config@ == entry_with_field(old(self).entries@[idx as int], key@, value@),
            final(self).entries@[idx as int].source == old(self).entries@[idx as int].source,
            final(self).entries@[idx as int].expanded == old(self).entries@[idx as int].expanded,
            forall|j: int| 0 <= j < old(self).entries@.len() && j != idx ==> #[trigger] final(self).entries@[j] == old(self).entries@[j],
            final(self).adding == old(self).adding,
            final(self).dirty == old(self).dirty,
    {
        let mut config = self.entries[idx].config.clone();
        set_domain_field(&mut config, key, value);
        let entry = DomainEntry { config, source: self.entries[idx].source, expanded: self.entries[idx].expanded };
        self.entries.set(idx, entry);
    }

    /// Flip field `key` of entry `idx` between "On" and "Off"; does nothing
    /// when there is no such entry.
    pub(crate) fn toggle_field(&mut self, domain_idx: usize, field_key: &str) -> (changed: bool)
        ensures
            changed == (domain_idx < old(self).entries@.len()),
            changed ==> {
                let e = old(self).entries@[domain_idx as int];
                let v = toggled_text(spec_domain_field_value(e.config@, field_key@));
                &&& final(self).entries@.len() == old(self).entries@.len()
                &&& final(self).entries@[domain_idx as int].config@ == entry_with_field(e, field_key@, v)
                &&& final(self).entries@[domain_idx as int].source == e.source
                &&& final(self).entries@[domain_idx as int].expanded == e.expanded
                &&& forall|j: int| 0 <= j < old(self).entries@.len() && j != domain_idx ==> #[trigger] final(self).entries@[j] == old(self).entries@[j]
                &&& final(self).dirty
            },
            !changed ==> *final(self) == *old(self),
            final(self).adding == old(self).adding,
    {
        if domain_idx < self.entries.len() {
            let current = domain_field_value(&self.entries[domain_idx].config, field_key);
            let new_val = if crate::text::str_eq(current.as_str(), "On") {
                "Off"
            } else {
                "On"
            };
            self.set_entry_field(domain_idx, field_key, new_val);
            self.dirty = true;
            true
        } else {
            false
        }
    }
}

/// A configuration value as the overlay sees it.
#[derive(Debug)]
pub enum DynValue {
    Null,
    Bool(bool),
    String(String),
    I64(i64),
    U64(u64),
    /// A float: its IEEE-754 bit pattern, and the text the overlay shows
    /// for it (rendered where floating point is at hand: whole numbers
    /// below 1e9 without decimals, others with two).
    F64 { bits: u64, text: String },
    /// An array or an object.
    Compound,
}

impl Clone for DynValue {
    fn clone(&self) -> (r: Self)
        ensures
            r == *self,
    {
        match self {
            DynValue::Null => DynValue::Null,
            DynValue::Bool(b) => DynValue::Bool(*b),
            DynValue::String(s) => DynValue::String(s.clone()),
            DynValue::I64(i) => DynValue::I64(*i),
            DynValue::U64(u) => DynValue::U64(*u),
            DynValue::F64 { bits, text } => DynValue::F64 { bits: *bits, text: text.clone() },
            DynValue::Compound => DynValue::Compound,
        }
    }
}

/// The decimal text of a signed integer, as `{}` formats it.
pub open spec fn signed_decimal(i: int) -> Seq<char> {
    if i < 0 {
        seq!['-'] + decimal_of((-i) as nat)
    } else {
        decimal_of(i as nat)
    }
}

/// The text the overlay shows for a value.
pub open spec fn display_text(v: DynValue) -> Seq<char> {
    match v {
        DynValue::Bool(b) => if b { "On"@ } else { "Off"@ },
        DynValue::String(s) => s@,
        DynValue::I64(i) => signed_decimal(i as int),
        DynValue::U64(u) => decimal_of(u as nat),
        DynValue::F64 { bits, text } => text@,
        DynValue::Null => Seq::empty(),
        DynValue::Compound => "..."@,
    }
}

/// Render a value for display in the settings panel.
pub fn value_to_display_string(v: &DynValue) -> (r: String)
    ensures
        r@ == display_text(*v),
{
    match v {
        DynValue::Bool(b) => if *b { owned("On") } else { owned("Off") },
        DynValue::String(s) => s.clone(),
        DynValue::I64(i) => {
            let mut out = String::new();
            if *i < 0 {
                push_str_chars(&mut out, "-");
                let mag: u64 = (0i128 - (*i as i128)) as u64;
                push_decimal(&mut out, mag);
                proof {
                    reveal_strlit("-");
                }
            } else {
                push_decimal(&mut out, *i as u64);
            }
            assert(out@ =~= signed_decimal(*i as int));
            out
        },
        DynValue::U64(u) => {
            let mut out = String::new();
            push_decimal(&mut out, *u);
            assert(out@ =~= decimal_of(*u as nat));
            out
        },
        DynValue::F64 { bits: _, text } => text.clone(),
        DynValue::Null => String::new(),
        DynValue::Compound => owned("..."),
    }
}

/// The biased exponent field of an `f64` bit pattern.
pub open spec fn f64_exponent(b: u64) -> int {
    (b as int / 0x10_0000_0000_0000) % 2048
}

/// The fraction field of an `f64` bit pattern.
pub open spec fn f64_fraction(b: u64) -> int {
    b as int % 0x10_0000_0000_0000
}

/// The sign bit of an `f64` bit pattern is set.
pub open spec fn f64_negative(b: u64) -> bool {
    b as int >= 0x8000_0000_0000_0000
}

/// The `f64` with bit pattern `b` is NaN.
pub open spec fn f64_is_nan(b: u64) -> bool {
    f64_exponent(b) == 2047 && f64_fraction(b) != 0
}

/// The `f64` with bit pattern `b` is zero (of either sign).
pub open spec fn f64_is_zero(b: u64) -> bool {
    f64_exponent(b) == 0 && f64_fraction(b) == 0
}

/// Float equality in which NaN equals NaN (as an ordered float compares):
/// otherwise the IEEE comparison, under which the two zeros are equal and
/// other values are equal exactly when their bit patterns are.
pub open spec fn floats_equal(x: u64, y: u64) -> bool {
    if f64_is_nan(x) || f64_is_nan(y) {
        f64_is_nan(x) && f64_is_nan(y)
    } else {
        x == y || (f64_is_zero(x) && f64_is_zero(y))
    }
}

/// The float with bit pattern `b` is a whole number whose value is `a`.
pub open spec fn float_is_int(b: u64, a: int) -> bool {
    let e = f64_exponent(b);
    let f = f64_fraction(b);
    if e == 2047 {
        false
    } else if e == 0 {
        f == 0 && a == 0
    } else {
        let mag = f + 0x10_0000_0000_0000;
        let value = if e >= 1075 {
            Some(mag * pow2((e - 1075) as nat))
        } else if mag % (pow2((1075 - e) as nat) as int) == 0 {
            Some(mag / (pow2((1075 - e) as nat) as int))
        } else {
            None
        };
        match value {
            Some(v) => a == if f64_negative(b) { -v } else { v },
            None => false,
        }
    }
}

/// Compare two values for display equality (ignoring numeric type
/// differences): an integer equals a float when, converted to the nearest
/// float, it compares equal to it.
pub open spec fn spec_values_equal(a: DynValue, b: DynValue) -> bool {
    match (a, b) {
        (DynValue::Bool(x), DynValue::Bool(y)) => x == y,
        (DynValue::String(x), DynValue::String(y)) => x@ == y@,
        (DynValue::I64(x), DynValue::I64(y)) => x == y,
        (DynValue::U64(x), DynValue::U64(y)) => x == y,
        (DynValue::F64 { bits: x, .. }, DynValue::F64 { bits: y, .. }) => floats_equal(x, y),
        (DynValue::I64(x), DynValue::F64 { bits: y, .. }) => float_is_int(y, f64_of_int(x as int)),
        (DynValue::F64 { bits: x, .. }, DynValue::I64(y)) => float_is_int(x, f64_of_int(y as int)),
        (DynValue::U64(x), DynValue::F64 { bits: y, .. }) => float_is_int(y, f64_of_int(x as int)),
        (DynValue::F64 { bits: x, .. }, DynValue::U64(y)) => float_is_int(x, f64_of_int(y as int)),
        (DynValue::I64(x), DynValue::U64(y)) => x >= 0 && x == y,
        (DynValue::U64(x), DynValue::I64(y)) => y >= 0 && x == y,
        _ => false,
    }
}

fn floats_equal_exec(x: u64, y: u64) -> (r: bool)
    ensures
        r == floats_equal(x, y),
{
    let xe = (x / 0x10_0000_0000_0000) % 2048;
    let xf = x % 0x10_0000_0000_0000;
    let ye = (y / 0x10_0000_0000_0000) % 2048;
    let yf = y % 0x10_0000_0000_0000;
    let x_nan = xe == 2047 && xf != 0;
    let y_nan = ye == 2047 && yf != 0;
    if x_nan || y_nan {
        x_nan && y_nan
    } else {
        x == y || (xe == 0 && xf == 0 && ye == 0 && yf == 0)
    }
}

/// The number of binary digits of `m`.
pub open spec fn bit_length(m: nat) -> nat
    decreases m,
{
    if m == 0 {
        0
    } else {
        1 + bit_length(m / 2)
    }
}

/// `m` rounded to 53 significant binary digits, ties to an even last
/// digit: the magnitude of the nearest `f64`.
pub open spec fn round_to_53_bits(m: nat) -> int {
    let n = bit_length(m);
    if n <= 53 {
        m as int
    } else {
        let ulp = pow2((n - 53) as nat) as int;
        let q = m as int / ulp;
        let r = m as int % ulp;
        if 2 * r > ulp || (2 * r == ulp && q % 2 == 1) {
            (q + 1) * ulp
        } else {
            q * ulp
        }
    }
}

/// The value of the integer `a` converted to `f64` (`a as f64`).
pub open spec fn f64_of_int(a: int) -> int {
    if a < 0 {
        -round_to_53_bits((-a) as nat)
    } else {
        round_to_53_bits(a as nat)
    }
}

pub(crate) proof fn lemma_bit_length_bound(m: nat, k: nat)
    requires
        m < pow2(k),
    ensures
        bit_length(m) <= k,
    decreases k,
{
    if m > 0 {
        if k == 0 {
            assert(pow2(0) == 1) by {
                lemma2_to64();
            }
        } else {
            lemma_pow2_unfold(k);
            lemma_bit_length_bound(m / 2, (k - 1) as nat);
        }
    }
}

/// `a as f64`, as the whole number it holds.
fn f64_of_int_exec(a: i128) -> (r: i128)
    requires
        -0x1_0000_0000_0000_0000 < a < 0x1_0000_0000_0000_0000,
    ensures
        r == f64_of_int(a as int),
        -0x1_0000_0000_0000_1000 <= r <= 0x1_0000_0000_0000_1000,
{
    let negative = a < 0;
    let m: u128 = if negative { (0 - a) as u128 } else { a as u128 };
    let ghost mn = m as nat;
    proof {
        lemma2_to64();
        lemma2_to64_rest();
        lemma_bit_length_bound(mn, 64);
    }
    let mut n: u32 = 0;
    let mut t: u128 = m;
    while t > 0
        invariant
            n + bit_length(t as nat) == bit_length(mn),
            bit_length(mn) <= 64,
        decreases t,
    {
        t = t / 2;
        n = n + 1;
    }
    if n <= 53 {
        return a;
    }
    let shift: u32 = n - 53;
    let mut ulp: u128 = 1;
    let mut i: u32 = 0;
    while i < shift
        invariant
            i <= shift <= 11,
            ulp == pow2(i as nat),
        decreases shift - i,
    {
        proof {
            lemma2_to64();
            lemma_pow2_unfold((i + 1) as nat);
            lemma_pow2_strictly_increases(i as nat, 11);
        }
        ulp = ulp * 2;
        i = i + 1;
    }
    proof {
        if shift < 11 {
            lemma_pow2_strictly_increases(shift as nat, 11);
        }
        lemma_pow2_pos(shift as nat);
        assert((m / ulp) * ulp <= m) by (nonlinear_arith)
            requires
                ulp > 0,
        ;
    }
    let q = m / ulp;
    let rem = m % ulp;
    let up = 2 * rem > ulp || (2 * rem == ulp && q % 2 == 1);
    assert(q * ulp + ulp <= m + 2048) by (nonlinear_arith)
        requires
            q * ulp <= m,
            ulp <= 2048,
    ;
    assert((q + 1) * ulp == q * ulp + ulp) by (nonlinear_arith);
    let mag: u128 = if up { (q + 1) * ulp } else { q * ulp };
    assert(n == bit_length(mn));
    assert(ulp == pow2((bit_length(mn) - 53) as nat));
    assert(mag as int == round_to_53_bits(mn));
    if negative {
        0 - (mag as i128)
    } else {
        mag as i128
    }
}

/// Whether the float with bit pattern `b` is the whole number `a`.
fn float_is_int_exec(b: u64, a: i128) -> (r: bool)
    requires
        -0x1_0000_0000_0000_1000 <= a <= 0x1_0000_0000_0000_1000,
    ensures
        r == float_is_int(b, a as int),
{
    let e = (b / 0x10_0000_0000_0000) % 2048;
    let f = b % 0x10_0000_0000_0000;
    let negative = b >= 0x8000_0000_0000_0000;
    if e == 2047 {
        return false;
    }
    if e == 0 {
        return f == 0 && a == 0;
    }
    let mag: u64 = f + 0x10_0000_0000_0000;
    proof {
        lemma2_to64();
        lemma2_to64_rest();
    }
    let value: u128 = if e >= 1075 {
        let sh = e - 1075;
        if sh > 12 {
            proof {
                if sh > 13 {
                    lemma_pow2_strictly_increases(13, sh as nat);
                }
                assert(mag * pow2(sh as nat) >= 0x10_0000_0000_0000 * 8192) by (nonlinear_arith)
                    requires
                        mag >= 0x10_0000_0000_0000,
                        pow2(sh as nat) >= 8192,
                ;
            }
            return false;
        }
        let p: u64 = 1u64 << sh;
        proof {
            vstd::bits::lemma_u64_shl_is_mul(1, sh);
            if sh < 12 {
                lemma_pow2_strictly_increases(sh as nat, 12);
            }
            assert(mag * pow2(sh as nat) < 0x2_0000_0000_0000_0000) by (nonlinear_arith)
                requires
                    mag < 0x20_0000_0000_0000,
                    pow2(sh as nat) <= 4096,
            ;
        }
        (mag as u128) * (p as u128)
    } else {
        let k = 1075 - e;
        if k > 52 {
            proof {
                if k > 53 {
                    lemma_pow2_strictly_increases(53, k as nat);
                }
                assert((mag as int) % (pow2(k as nat) as int) == mag as int) by (nonlinear_arith)
                    requires
                        0 < mag < pow2(k as nat),
                ;
            }
            return false;
        }
        let p: u64 = 1u64 << k;
        proof {
            vstd::bits::lemma_u64_shl_is_mul(1, k);
        }
        if mag % p != 0 {
            return false;
        }
        (mag / p) as u128
    };
    if negative {
        a == 0 - (value as i128)
    } else {
        a == value as i128
    }
}

/// Compare two `Value`s for display equality (ignoring numeric type differences).
pub fn values_equal(a: &DynValue, b: &DynValue) -> (r: bool)
    ensures
        r == spec_values_equal(*a, *b),
{
    match (a, b) {
        (DynValue::Bool(x), DynValue::Bool(y)) => *x == *y,
        (DynValue::String(x), DynValue::String(y)) => *x == *y,
        (DynValue::I64(x), DynValue::I64(y)) => *x == *y,
        (DynValue::U64(x), DynValue::U64(y)) => *x == *y,
        (DynValue::F64 { bits: x, .. }, DynValue::F64 { bits: y, .. }) => floats_equal_exec(*x, *y),
        (DynValue::I64(x), DynValue::F64 { bits: y, .. }) => float_is_int_exec(*y, f64_of_int_exec(*x as i128)),
        (DynValue::F64 { bits: x, .. }, DynValue::I64(y)) => float_is_int_exec(*x, f64_of_int_exec(*y as i128)),
        (DynValue::U64(x), DynValue::F64 { bits: y, .. }) => float_is_int_exec(*y, f64_of_int_exec(*x as i128)),
        (DynValue::F64 { bits: x, .. }, DynValue::U64(y)) => float_is_int_exec(*x, f64_of_int_exec(*y as i128)),
        (DynValue::I64(x), DynValue::U64(y)) => *x >= 0 && (*x as u64) == *y,
        (DynValue::U64(x), DynValue::I64(y)) => *y >= 0 && *x == (*y as u64),
        _ => false,
    }
}

} // verus!
