//! Configuration: a key/value store and the textual datasets it carries.
//!
//! The store mirrors a flat `key=value` file. Two keys matter to the
//! simulation: `S` encodes the server processing powers
//! (`power_1;...;power_n`) and `C` encodes one client record per
//! semicolon-group (`rate,share_1,...,share_n`). Any key that was never set
//! reads as the literal `"1"`. Reading the file is the embedding program's
//! job; every rule of the grammar itself is verified here.
//!
//! Numeric fields are deliberately plain: a rate or power is a run of
//! decimal digits, and a share is such a run with at most one decimal point.
//! Signs, exponent notation (`1e-3`), `inf` and `NaN` are not part of the
//! grammar — a share is a fraction of a partition and a power a positive
//! count, so only exact decimals are accepted; anything else reads as
//! `NonNumericField` and aborts startup rather than being guessed at.

use crate::ratio::Fraction;
use vstd::prelude::*;
use vstd::string::StrSliceExecFns;
use vstd::string::StringExecFns;

verus! {

/// Index of the first occurrence of `sep`, or -1 when there is none.
pub open spec fn first_sep(s: Seq<char>, sep: char) -> int
    decreases s.len(),
{
    if s.len() == 0 {
        -1
    } else if s[0] == sep {
        0
    } else if first_sep(s.drop_first(), sep) < 0 {
        -1
    } else {
        first_sep(s.drop_first(), sep) + 1
    }
}

/// The separated segments of `s`, in order: what `sep` cuts `s` into.
/// An empty string is one empty segment; a trailing `sep` yields a trailing
/// empty segment.
pub open spec fn split_spec(s: Seq<char>, sep: char) -> Seq<Seq<char>>
    decreases s.len(),
{
    let i = first_sep(s, sep);
    if 0 <= i < s.len() {
        seq![s.take(i)] + split_spec(s.skip(i + 1), sep)
    } else {
        seq![s]
    }
}

proof fn lemma_first_sep_at(s: Seq<char>, sep: char, i: int)
    requires
        0 <= i < s.len(),
        s[i] == sep,
        forall|j: int| 0 <= j < i ==> s[j] != sep,
    ensures
        first_sep(s, sep) == i,
    decreases i,
{
    if i > 0 {
        lemma_first_sep_at(s.drop_first(), sep, i - 1);
    }
}

proof fn lemma_first_sep_bound(s: Seq<char>, sep: char)
    ensures
        -1 <= first_sep(s, sep) < s.len(),
    decreases s.len(),
{
    if s.len() > 0 && s[0] != sep {
        lemma_first_sep_bound(s.drop_first(), sep);
    }
}

proof fn lemma_first_sep_none(s: Seq<char>, sep: char)
    requires
        forall|j: int| 0 <= j < s.len() ==> s[j] != sep,
    ensures
        first_sep(s, sep) == -1,
    decreases s.len(),
{
    if s.len() > 0 {
        lemma_first_sep_none(s.drop_first(), sep);
    }
}

/// A split has at least one segment, and a second one exactly when the
/// separator occurs at all.
proof fn lemma_split_len(s: Seq<char>, sep: char)
    ensures
        split_spec(s, sep).len() >= 1,
        split_spec(s, sep).len() >= 2 <==> 0 <= first_sep(s, sep) < s.len(),
    decreases s.len(),
{
    let i = first_sep(s, sep);
    if 0 <= i < s.len() {
        lemma_split_len(s.skip(i + 1), sep);
    }
}

/// Where the first `sep` stands, if anywhere.
fn find_char(s: &str, sep: char) -> (r: Option<usize>)
    ensures
        match r {
            Some(i) => i == first_sep(s@, sep) && i < s@.len(),
            None => first_sep(s@, sep) == -1,
        },
{
    let n = s.unicode_len();
    for i in 0..n
        invariant
            n == s@.len(),
            forall|j: int| 0 <= j < i ==> s@[j] != sep,
    {
        if s.get_char(i) == sep {
            proof {
                lemma_first_sep_at(s@, sep, i as int);
            }
            return Some(i);
        }
    }
    proof {
        lemma_first_sep_none(s@, sep);
    }
    None
}

/// Cut `s` at every `sep`, exactly as `split_spec` describes.
fn split_str(s: &str, sep: char) -> (parts: Vec<String>)
    ensures
        parts.deep_view() == split_spec(s@, sep),
        parts@.len() >= 1,
    decreases s@.len(),
{
    proof {
        lemma_split_len(s@, sep);
    }
    match find_char(s, sep) {
        None => {
            let mut parts: Vec<String> = Vec::new();
            parts.push(s.to_owned());
            proof {
                assert(parts.deep_view() =~= split_spec(s@, sep));
            }
            parts
        },
        Some(i) => {
            let n = s.unicode_len();
            let head = s.substring_char(0, i).to_owned();
            let rest = s.substring_char(i + 1, n);
            let mut parts = split_str(rest, sep);
            parts.insert(0, head);
            proof {
                assert(parts.deep_view() =~= split_spec(s@, sep));
            }
            parts
        },
    }
}

/// Why a configuration value was rejected.
#[derive(Clone, Copy, PartialEq, Eq, Structural, Debug)]
pub enum ConfigError {
    /// A line without a key/value separator.
    Malformed,
    /// A numeric field that does not parse, or does not fit.
    NonNumericField,
}

/// One configured server: how many work units it processes per simulated
/// second. Immutable after load.
#[derive(Clone, Copy, PartialEq, Eq, Structural, Debug)]
pub struct ServerData {
    pub processing_power: u64,
}

impl ServerData {
    pub fn get_processing_power(&self) -> (r: u64)
        ensures
            r == self.processing_power,
    {
        self.processing_power
    }
}

/// One configured client: its generation rate and one workshare fraction per
/// server, aligned positionally with the server list.
#[derive(Debug)]
pub struct ClientData {
    pub work_generation_rate: u64,
    pub workshare: Vec<Fraction>,
}

impl ClientData {
    /// Every workshare fraction has a non-zero denominator.
    pub open spec fn wf(self) -> bool {
        forall|k: int| 0 <= k < self.workshare@.len() ==> (#[trigger] self.workshare@[k]).is_valid()
    }

    pub fn get_work_generation_rate(&self) -> (r: u64)
        ensures
            r == self.work_generation_rate,
    {
        self.work_generation_rate
    }

    pub fn get_workshare(&self) -> (r: &Vec<Fraction>)
        ensures
            r@ == self.workshare@,
    {
        &self.workshare
    }

    /// The record this client was configured from: its rate and its
    /// workshare as numerator/denominator pairs.
    pub open spec fn as_record(self) -> (u64, Seq<(u64, u64)>) {
        (self.work_generation_rate, self.workshare@.map_values(|w: Fraction| (w.num, w.den)))
    }

    /// Run-time counterpart of `wf`, for callers outside verified code.
    pub fn check_workshare(&self) -> (r: bool)
        ensures
            r == self.wf(),
    {
        let n = self.workshare.len();
        for k in 0..n
            invariant
                n == self.workshare@.len(),
                forall|j: int| 0 <= j < k ==> (#[trigger] self.workshare@[j]).is_valid(),
        {
            if self.workshare[k].den == 0 {
                return false;
            }
        }
        true
    }
}

/// An ASCII decimal digit.
pub open spec fn is_digit(c: char) -> bool {
    48 <= c as u32 <= 57
}

pub open spec fn all_digits(s: Seq<char>) -> bool {
    forall|i: int| 0 <= i < s.len() ==> is_digit(#[trigger] s[i])
}

/// The number a digit string denotes, most significant digit first.
pub open spec fn digits_val(s: Seq<char>) -> int
    decreases s.len(),
{
    if s.len() == 0 {
        0
    } else {
        digits_val(s.drop_last()) * 10 + (s.last() as u32 - 48)
    }
}

/// What a field must be to denote a `u64`: non-empty, digits only, in range.
pub open spec fn parse_u64_spec(s: Seq<char>) -> Option<u64> {
    if s.len() > 0 && all_digits(s) && digits_val(s) <= u64::MAX {
        Some(digits_val(s) as u64)
    } else {
        None
    }
}

proof fn lemma_digits_val_nonneg(s: Seq<char>)
    requires
        all_digits(s),
    ensures
        digits_val(s) >= 0,
    decreases s.len(),
{
    if s.len() > 0 {
        assert(all_digits(s.drop_last()));
        lemma_digits_val_nonneg(s.drop_last());
    }
}

/// With digits only, a prefix never denotes more than the whole string.
proof fn lemma_digits_val_prefix_le(s: Seq<char>, j: int)
    requires
        all_digits(s),
        0 <= j <= s.len(),
    ensures
        digits_val(s.take(j)) <= digits_val(s),
    decreases s.len() - j,
{
    if j < s.len() {
        lemma_digits_val_prefix_le(s, j + 1);
        assert(s.take(j + 1).drop_last() =~= s.take(j));
        assert(all_digits(s.take(j)));
        lemma_digits_val_nonneg(s.take(j));
    } else {
        assert(s.take(j) =~= s);
    }
}

/// Parse a `u64` field: digits only, overflow rejected.
fn parse_u64_str(s: &str) -> (r: Option<u64>)
    ensures
        r == parse_u64_spec(s@),
{
    let n = s.unicode_len();
    if n == 0 {
        return None;
    }
    let mut acc: u128 = 0;
    for i in 0..n
        invariant
            n == s@.len(),
            n > 0,
            all_digits(s@.take(i as int)),
            acc == digits_val(s@.take(i as int)),
            acc <= u64::MAX,
    {
        let c = s.get_char(i);
        let u = c as u32;
        if u < 48 || u > 57 {
            return None;
        }
        let next: u128 = acc * 10 + ((u - 48) as u128);
        proof {
            assert(s@.take(i + 1).drop_last() =~= s@.take(i as int));
            assert(all_digits(s@.take(i + 1)));
        }
        if next > u64::MAX as u128 {
            proof {
                if all_digits(s@) {
                    lemma_digits_val_prefix_le(s@, i + 1);
                }
            }
            return None;
        }
        acc = next;
    }
    proof {
        assert(s@.take(n as int) =~= s@);
    }
    Some(acc as u64)
}

/// Ten to the `n`-th.
pub open spec fn pow10(n: nat) -> int
    decreases n,
{
    if n == 0 {
        1
    } else {
        10 * pow10((n - 1) as nat)
    }
}

proof fn lemma_pow10_pos(n: nat)
    ensures
        pow10(n) > 0,
    decreases n,
{
    if n > 0 {
        lemma_pow10_pos((n - 1) as nat);
    }
}

proof fn lemma_pow10_mono(a: nat, b: nat)
    requires
        a <= b,
    ensures
        pow10(a) <= pow10(b),
    decreases b,
{
    if a < b {
        lemma_pow10_mono(a, (b - 1) as nat);
        lemma_pow10_pos((b - 1) as nat);
    }
}

/// What a workshare field denotes, as an exact numerator/denominator pair:
/// either a plain digit string (denominator 1), or two digit runs around a
/// single decimal point, scaled by ten to the number of places after it.
/// Rejected when a part is not digits, both parts are empty, or either the
/// numerator or the scale overflows `u64`.
pub open spec fn parse_weight_spec(s: Seq<char>) -> Option<(u64, u64)> {
    let dot = first_sep(s, '.');
    if dot < 0 {
        match parse_u64_spec(s) {
            Some(v) => Some((v, 1u64)),
            None => None,
        }
    } else if 0 <= dot < s.len() {
        let scale = pow10((s.len() - dot - 1) as nat);
        match parse_u64_spec(s.take(dot) + s.skip(dot + 1)) {
            Some(v) => if scale <= u64::MAX {
                Some((v, scale as u64))
            } else {
                None
            },
            None => None,
        }
    } else {
        None
    }
}

/// Parse a workshare field into an exact fraction.
fn parse_weight(s: &str) -> (r: Option<Fraction>)
    ensures
        match r {
            Some(f) => parse_weight_spec(s@) == Some((f.num, f.den)) && f.is_valid(),
            None => parse_weight_spec(s@) is None,
        },
{
    match find_char(s, '.') {
        None => {
            match parse_u64_str(s) {
                Some(v) => Some(Fraction::new(v, 1)),
                None => None,
            }
        },
        Some(dot) => {
            let n = s.unicode_len();
            let mut digits: String = s.substring_char(0, dot).to_owned();
            digits.append(s.substring_char(dot + 1, n));
            proof {
                assert(digits@ == s@.take(dot as int) + s@.skip(dot + 1));
            }
            let v = match parse_u64_str(digits.as_str()) {
                Some(v) => v,
                None => {
                    return None;
                },
            };
            let frac_len = n - dot - 1;
            let mut scale: u128 = 1;
            for j in 0..frac_len
                invariant
                    n == s@.len(),
                    dot == first_sep(s@, '.'),
                    0 <= dot < n,
                    frac_len == n - dot - 1,
                    scale == pow10(j as nat),
                    1 <= scale <= u64::MAX,
            {
                let next: u128 = scale * 10;
                if next > u64::MAX as u128 {
                    proof {
                        lemma_pow10_mono((j + 1) as nat, frac_len as nat);
                    }
                    return None;
                }
                scale = next;
            }
            Some(Fraction::new(v, scale as u64))
        },
    }
}

/// First value bound to `key`, scanning front to back.
pub open spec fn spec_lookup(entries: Seq<(Seq<char>, Seq<char>)>, key: Seq<char>) -> Option<
    Seq<char>,
>
    decreases entries.len(),
{
    if entries.len() == 0 {
        None
    } else if entries[0].0 == key {
        Some(entries[0].1)
    } else {
        spec_lookup(entries.drop_first(), key)
    }
}

proof fn lemma_lookup_first_match(entries: Seq<(Seq<char>, Seq<char>)>, key: Seq<char>, i: int)
    requires
        0 <= i < entries.len(),
        entries[i].0 == key,
        forall|j: int| 0 <= j < i ==> (#[trigger] entries[j]).0 != key,
    ensures
        spec_lookup(entries, key) == Some(entries[i].1),
    decreases i,
{
    if i > 0 {
        assert(entries[0].0 != key);
        lemma_lookup_first_match(entries.drop_first(), key, i - 1);
    }
}

proof fn lemma_lookup_no_match(entries: Seq<(Seq<char>, Seq<char>)>, key: Seq<char>)
    requires
        forall|j: int| 0 <= j < entries.len() ==> (#[trigger] entries[j]).0 != key,
    ensures
        spec_lookup(entries, key) is None,
    decreases entries.len(),
{
    if entries.len() > 0 {
        lemma_lookup_no_match(entries.drop_first(), key);
    }
}

/// What the `S` value denotes: one processing power per semicolon-separated
/// field, or nothing if any field is not a number.
pub open spec fn server_dataset_spec(v: Seq<char>) -> Option<Seq<u64>> {
    let parts = split_spec(v, ';');
    if forall|k: int| 0 <= k < parts.len() ==> parse_u64_spec(#[trigger] parts[k]) is Some {
        Some(
            Seq::new(
                parts.len(),
                |k: int|
                    match parse_u64_spec(parts[k]) {
                        Some(p) => p,
                        None => 0u64,
                    },
            ),
        )
    } else {
        None
    }
}

/// What one semicolon-group of the `C` value denotes: the generation rate,
/// then one weight per remaining comma-separated field.
pub open spec fn client_record_spec(s: Seq<char>) -> Option<(u64, Seq<(u64, u64)>)> {
    let fields = split_spec(s, ',');
    if parse_u64_spec(fields[0]) is Some && (forall|k: int|
        1 <= k < fields.len() ==> parse_weight_spec(#[trigger] fields[k]) is Some) {
        Some(
            (
                match parse_u64_spec(fields[0]) {
                    Some(v) => v,
                    None => 0u64,
                },
                Seq::new(
                    (fields.len() - 1) as nat,
                    |k: int|
                        match parse_weight_spec(fields[k + 1]) {
                            Some(w) => w,
                            None => (0u64, 1u64),
                        },
                ),
            ),
        )
    } else {
        None
    }
}

/// What the `C` value denotes: one client record per semicolon-group.
pub open spec fn client_dataset_spec(v: Seq<char>) -> Option<Seq<(u64, Seq<(u64, u64)>)>> {
    let groups = split_spec(v, ';');
    if forall|j: int| 0 <= j < groups.len() ==> client_record_spec(#[trigger] groups[j]) is Some {
        Some(
            Seq::new(
                groups.len(),
                |j: int|
                    match client_record_spec(groups[j]) {
                        Some(r) => r,
                        None => (0u64, Seq::empty()),
                    },
            ),
        )
    } else {
        None
    }
}

/// Parse one client record: `rate,share_1,...,share_n`.
fn parse_client_record(s: &str) -> (r: Option<ClientData>)
    ensures
        match r {
            Some(c) => client_record_spec(s@) == Some(c.as_record()) && c.wf(),
            None => client_record_spec(s@) is None,
        },
{
    let fields = split_str(s, ',');
    let rate = match parse_u64_str(fields[0].as_str()) {
        Some(v) => v,
        None => {
            return None;
        },
    };
    let m = fields.len();
    let mut workshare: Vec<Fraction> = Vec::new();
    for k in 1..m
        invariant
            m == fields@.len(),
            m >= 1,
            fields.deep_view() == split_spec(s@, ','),
            parse_u64_spec(split_spec(s@, ',')[0]) == Some(rate),
            workshare@.len() == k - 1,
            forall|i: int|
                0 <= i < k - 1 ==> {
                    &&& parse_weight_spec(fields.deep_view()[i + 1]) == Some(
                        ((#[trigger] workshare@[i]).num, workshare@[i].den),
                    )
                    &&& workshare@[i].is_valid()
                },
    {
        match parse_weight(fields[k].as_str()) {
            Some(w) => workshare.push(w),
            None => {
                proof {
                    assert(parse_weight_spec(split_spec(s@, ',')[k as int]) is None);
                }
                return None;
            },
        }
    }
    let c = ClientData { work_generation_rate: rate, workshare };
    proof {
        let fields_spec = split_spec(s@, ',');
        assert forall|k: int|
            1 <= k < fields_spec.len() implies parse_weight_spec(
            #[trigger] fields_spec[k],
        ) is Some by {
            assert(parse_weight_spec(fields_spec[k]) == Some(
                (workshare@[k - 1].num, workshare@[k - 1].den),
            ));
        }
        assert(c.as_record().1 =~= Seq::new(
            (fields_spec.len() - 1) as nat,
            |k: int|
                match parse_weight_spec(fields_spec[k + 1]) {
                    Some(w) => w,
                    None => (0u64, 1u64),
                },
        ));
    }
    Some(c)
}

/// The key/value store behind one simulation run. Later bindings of a key
/// shadow earlier ones, as repeated lines in a file overwrite each other.
pub struct Configuration {
    pub data: Vec<(String, String)>,
}

impl Configuration {
    /// The stored bindings, newest first, as character sequences.
    pub open spec fn entries(self) -> Seq<(Seq<char>, Seq<char>)> {
        Seq::new(self.data@.len(), |i: int| (self.data@[i].0@, self.data@[i].1@))
    }

    /// What `get` answers for `key`: the bound value, or the default `"1"`.
    pub open spec fn spec_value(self, key: Seq<char>) -> Seq<char> {
        match spec_lookup(self.entries(), key) {
            Some(v) => v,
            None => "1"@,
        }
    }

    pub fn new() -> (c: Configuration)
        ensures
            c.entries().len() == 0,
    {
        Configuration { data: Vec::new() }
    }

    /// Bind `key` to `value`, shadowing any earlier binding.
    pub fn set(&mut self, key: String, value: String)
        ensures
            forall|k: Seq<char>|
                spec_lookup(final(self).entries(), k) == (if k == key@ {
                    Some(value@)
                } else {
                    spec_lookup(old(self).entries(), k)
                }),
    {
        self.data.insert(0, (key, value));
        proof {
            let post = self.entries();
            let pre = old(self).entries();
            assert(post.drop_first() =~= pre);
            assert forall|k: Seq<char>|
                spec_lookup(post, k) == (if k == key@ {
                    Some(value@)
                } else {
                    spec_lookup(pre, k)
                }) by {
                assert(spec_lookup(post, k) == if post[0].0 == k {
                    Some(post[0].1)
                } else {
                    spec_lookup(post.drop_first(), k)
                });
            }
        }
    }

    /// The value bound to `key`, or `"1"` when the key was never set.
    pub fn get<'a>(&'a self, key: &str) -> (value: &'a str)
        ensures
            value@ == self.spec_value(key@),
    {
        let owned_key: String = key.to_owned();
        let n = self.data.len();
        for i in 0..n
            invariant
                n == self.data@.len(),
                owned_key@ == key@,
                forall|j: int| 0 <= j < i ==> (#[trigger] self.entries()[j]).0 != key@,
        {
            if self.data[i].0 == owned_key {
                proof {
                    lemma_lookup_first_match(self.entries(), key@, i as int);
                }
                return self.data[i].1.as_str();
            }
        }
        proof {
            lemma_lookup_no_match(self.entries(), key@);
        }
        "1"
    }

    /// Take one `key=value` line into the store. A second `=` and everything
    /// after it is dropped; a line without `=` is malformed and changes
    /// nothing.
    pub fn load_line(&mut self, line: &str) -> (r: Result<(), ConfigError>)
        ensures
            r is Ok <==> first_sep(line@, '=') >= 0,
            r is Ok ==> (forall|k: Seq<char>|
                spec_lookup(final(self).entries(), k) == (if k == split_spec(line@, '=')[0] {
                    Some(split_spec(line@, '=')[1])
                } else {
                    spec_lookup(old(self).entries(), k)
                })),
            r matches Err(e) ==> e == ConfigError::Malformed && *final(self) == *old(self),
    {
        proof {
            lemma_split_len(line@, '=');
            lemma_first_sep_bound(line@, '=');
        }
        let parts = split_str(line, '=');
        if parts.len() < 2 {
            return Err(ConfigError::Malformed);
        }
        let key = parts[0].clone();
        let value = parts[1].clone();
        proof {
            assert(key@ == split_spec(line@, '=')[0]);
            assert(value@ == split_spec(line@, '=')[1]);
        }
        self.set(key, value);
        Ok(())
    }

    /// The server dataset the `S` value encodes, one descriptor per
    /// semicolon-separated processing power, in configuration order.
    pub fn get_server_dataset(&self) -> (r: Result<Vec<ServerData>, ConfigError>)
        ensures
            r is Ok <==> server_dataset_spec(self.spec_value("S"@)) is Some,
            r matches Ok(ds) ==> server_dataset_spec(self.spec_value("S"@)) == Some(
                ds@.map_values(|d: ServerData| d.processing_power),
            ),
            r matches Err(e) ==> e == ConfigError::NonNumericField,
    {
        let raw = self.get("S");
        let parts = split_str(raw, ';');
        let m = parts.len();
        let mut ds: Vec<ServerData> = Vec::new();
        for k in 0..m
            invariant
                m == parts@.len(),
                parts.deep_view() == split_spec(self.spec_value("S"@), ';'),
                ds@.len() == k,
                forall|i: int|
                    0 <= i < k ==> parse_u64_spec(parts.deep_view()[i]) == Some(
                        (#[trigger] ds@[i]).processing_power,
                    ),
        {
            match parse_u64_str(parts[k].as_str()) {
                Some(p) => ds.push(ServerData { processing_power: p }),
                None => {
                    proof {
                        assert(parse_u64_spec(
                            split_spec(self.spec_value("S"@), ';')[k as int],
                        ) is None);
                    }
                    return Err(ConfigError::NonNumericField);
                },
            }
        }
        proof {
            let parts_spec = split_spec(self.spec_value("S"@), ';');
            assert forall|k: int|
                0 <= k < parts_spec.len() implies parse_u64_spec(
                #[trigger] parts_spec[k],
            ) is Some by {
                assert(parse_u64_spec(parts_spec[k]) == Some(ds@[k].processing_power));
            }
            assert(ds@.map_values(|d: ServerData| d.processing_power) =~= Seq::new(
                parts_spec.len(),
                |k: int|
                    match parse_u64_spec(parts_spec[k]) {
                        Some(p) => p,
                        None => 0u64,
                    },
            ));
        }
        Ok(ds)
    }

    /// The client dataset the `C` value encodes, one descriptor per
    /// semicolon-group, in configuration order.
    pub fn get_client_dataset(&self) -> (r: Result<Vec<ClientData>, ConfigError>)
        ensures
            r is Ok <==> client_dataset_spec(self.spec_value("C"@)) is Some,
            r matches Ok(ds) ==> client_dataset_spec(self.spec_value("C"@)) == Some(
                ds@.map_values(|c: ClientData| c.as_record()),
            ) && (forall|j: int| 0 <= j < ds@.len() ==> (#[trigger] ds@[j]).wf()),
            r matches Err(e) ==> e == ConfigError::NonNumericField,
    {
        let raw = self.get("C");
        let groups = split_str(raw, ';');
        let m = groups.len();
        let mut ds: Vec<ClientData> = Vec::new();
        for j in 0..m
            invariant
                m == groups@.len(),
                groups.deep_view() == split_spec(self.spec_value("C"@), ';'),
                ds@.len() == j,
                forall|i: int|
                    0 <= i < j ==> client_record_spec(groups.deep_view()[i]) == Some(
                        (#[trigger] ds@[i]).as_record(),
                    ) && ds@[i].wf(),
        {
            match parse_client_record(groups[j].as_str()) {
                Some(c) => ds.push(c),
                None => {
                    proof {
                        assert(client_record_spec(
                            split_spec(self.spec_value("C"@), ';')[j as int],
                        ) is None);
                    }
                    return Err(ConfigError::NonNumericField);
                },
            }
        }
        proof {
            let groups_spec = split_spec(self.spec_value("C"@), ';');
            assert forall|j: int|
                0 <= j < groups_spec.len() implies client_record_spec(
                #[trigger] groups_spec[j],
            ) is Some by {
                assert(client_record_spec(groups_spec[j]) == Some(ds@[j].as_record()));
            }
            assert(ds@.map_values(|c: ClientData| c.as_record()) =~= Seq::new(
                groups_spec.len(),
                |j: int|
                    match client_record_spec(groups_spec[j]) {
                        Some(r) => r,
                        None => (0u64, Seq::empty()),
                    },
            ));
        }
        Ok(ds)
    }
}

} // verus!
