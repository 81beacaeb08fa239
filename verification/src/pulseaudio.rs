//! Names and module arguments of the virtual PulseAudio devices of a translation line.
//!
//! A pair is a null sink (a virtual speaker) and a source that remaps its
//! monitor (a virtual microphone); one of the two is hidden from users.

use vstd::prelude::*;
use vstd::string::StringExecFns;

verus! {

/// What `str::to_lowercase` returns for `s`.
pub uninterp spec fn spec_to_lowercase(s: Seq<char>) -> Seq<char>;

/// What `str::to_uppercase` returns for `s`.
pub uninterp spec fn spec_to_uppercase(s: Seq<char>) -> Seq<char>;

/// Calls `str::to_lowercase`; trusted to return its named result.
#[verifier::external_body]
fn to_lowercase(s: &str) -> (r: String)
    ensures
        r@ == spec_to_lowercase(s@),
{
    s.to_lowercase()
}

/// Calls `str::to_uppercase`; trusted to return its named result.
#[verifier::external_body]
fn to_uppercase(s: &str) -> (r: String)
    ensures
        r@ == spec_to_uppercase(s@),
{
    s.to_uppercase()
}

/// What `str::lines` yields for `s`: its lines, without line terminators.
pub uninterp spec fn spec_lines(s: Seq<char>) -> Seq<Seq<char>>;

/// What `s.split_whitespace().next()` returns: the first whitespace-separated word.
pub uninterp spec fn spec_first_word(s: Seq<char>) -> Option<Seq<char>>;

/// The value of a string of ASCII decimal digits.
pub open spec fn digits_value(d: Seq<char>) -> int
    decreases d.len(),
{
    if d.len() == 0 {
        0
    } else {
        digits_value(d.drop_last()) * 10 + (d.last() as int - 48)
    }
}

/// Every character of `d` is an ASCII decimal digit.
pub open spec fn all_digits(d: Seq<char>) -> bool {
    forall|i: int| 0 <= i < d.len() ==> 48 <= #[trigger] (d[i] as int) <= 57
}

/// What `s.parse::<u32>()` returns, as an option: an optional `+` followed by
/// one or more ASCII digits whose value fits in 32 bits.
pub open spec fn spec_parse_u32(s: Seq<char>) -> Option<u32> {
    let d = if s.len() > 0 && s[0] == '+' { s.drop_first() } else { s };
    if d.len() > 0 && all_digits(d) && digits_value(d) <= u32::MAX {
        Some(digits_value(d) as u32)
    } else {
        None
    }
}

/// `pattern` occurs in `s`.
pub open spec fn contains_seq(s: Seq<char>, pattern: Seq<char>) -> bool {
    exists|i: int| 0 <= i && i + pattern.len() <= s.len() && #[trigger] s.subrange(i, i + pattern.len()) == pattern
}

/// Calls `str::lines` and copies each line; trusted to return the named lines.
#[verifier::external_body]
fn lines(s: &str) -> (r: Vec<String>)
    ensures
        r@.len() == spec_lines(s@).len(),
        forall|i: int| 0 <= i < r@.len() ==> #[trigger] r@[i]@ == spec_lines(s@)[i],
{
    s.lines().map(String::from).collect()
}

/// Calls `str::split_whitespace` and takes the first word; trusted to return the named word.
#[verifier::external_body]
fn first_word(s: &str) -> (r: Option<String>)
    ensures
        r is Some <==> spec_first_word(s@) is Some,
        r matches Some(w) ==> w@ == spec_first_word(s@)->Some_0,
{
    s.split_whitespace().next().map(String::from)
}

/// A longer run of digits is worth at least as much as its prefix.
proof fn lemma_digits_value_prefix(d: Seq<char>, k: int)
    requires
        all_digits(d),
        0 <= k <= d.len(),
    ensures
        digits_value(d.subrange(0, k)) <= digits_value(d),
    decreases d.len(),
{
    if k < d.len() {
        let rest = d.drop_last();
        assert(all_digits(rest)) by {
            assert forall|i: int| 0 <= i < rest.len() implies 48 <= #[trigger] (rest[i] as int) <= 57 by {
                assert(rest[i] == d[i]);
            }
        }
        lemma_digits_value_prefix(rest, k);
        assert(rest.subrange(0, k) == d.subrange(0, k));
        assert(48 <= (d[d.len() - 1] as int));
        assert(digits_value(rest) >= 0) by {
            lemma_digits_value_nonneg(rest);
        }
    } else {
        assert(d.subrange(0, k) == d);
    }
}

proof fn lemma_digits_value_nonneg(d: Seq<char>)
    requires
        all_digits(d),
    ensures
        digits_value(d) >= 0,
    decreases d.len(),
{
    if d.len() > 0 {
        let rest = d.drop_last();
        assert forall|i: int| 0 <= i < rest.len() implies 48 <= #[trigger] (rest[i] as int) <= 57 by {
            assert(rest[i] == d[i]);
        }
        lemma_digits_value_nonneg(rest);
        assert(48 <= (d[d.len() - 1] as int));
    }
}

/// Reads `s` as `str::parse::<u32>` does: an optional `+` followed by one or
/// more ASCII digits whose value fits in 32 bits.
pub fn parse_u32(s: &str) -> (r: Option<u32>)
    ensures
        r == spec_parse_u32(s@),
{
    let n = s.unicode_len();
    let start: usize = if n > 0 && s.get_char(0) == '+' { 1 } else { 0 };
    let ghost d = if s@.len() > 0 && s@[0] == '+' { s@.drop_first() } else { s@ };
    proof {
        assert(d == s@.subrange(start as int, n as int));
    }
    if start == n {
        return None;
    }
    let mut acc: u64 = 0;
    let mut i: usize = start;
    while i < n
        invariant
            n == s@.len(),
            start < n,
            start <= i <= n,
            d == s@.subrange(start as int, n as int),
            d == (if s@.len() > 0 && s@[0] == '+' { s@.drop_first() } else { s@ }),
            all_digits(s@.subrange(start as int, i as int)),
            acc as int == digits_value(s@.subrange(start as int, i as int)),
            acc <= u32::MAX,
        decreases n - i,
    {
        let c = s.get_char(i);
        let code = c as u32;
        if code < 48 || code > 57 {
            proof {
                assert(d[i - start] == c);
                assert((c as int) == (code as int));
                assert(!(48 <= (d[i - start] as int) <= 57));
                assert(!all_digits(d));
                assert(spec_parse_u32(s@) is None);
            }
            return None;
        }
        let ghost prefix = s@.subrange(start as int, i + 1);
        proof {
            assert(prefix.drop_last() == s@.subrange(start as int, i as int));
            assert(prefix.last() == c);
            assert forall|k: int| 0 <= k < prefix.len() implies 48 <= #[trigger] (prefix[k] as int) <= 57 by {
                if k < prefix.len() - 1 {
                    assert(prefix[k] == s@.subrange(start as int, i as int)[k]);
                }
            }
        }
        acc = acc * 10 + (code - 48) as u64;
        proof {
            assert((c as int) == (code as int));
            assert(acc as int == digits_value(prefix));
        }
        if acc > 0xFFFF_FFFF {
            proof {
                if all_digits(d) {
                    lemma_digits_value_prefix(d, i + 1 - start);
                    assert(d.subrange(0, i + 1 - start) == prefix);
                }
                assert(spec_parse_u32(s@) is None);
            }
            return None;
        }
        i = i + 1;
    }
    assert(s@.subrange(start as int, n as int) == d);
    Some(acc as u32)
}

/// Whether `pattern` occurs in `s`, as `str::contains` with a string pattern answers.
fn str_contains(s: &str, pattern: &str) -> (r: bool)
    ensures
        r == contains_seq(s@, pattern@),
{
    let n = s.unicode_len();
    let m = pattern.unicode_len();
    if m > n {
        return false;
    }
    if m == 0 {
        assert(s@.subrange(0, 0 + pattern@.len() as int) =~= pattern@);
        return true;
    }
    let mut i: usize = 0;
    while i <= n - m
        invariant
            n == s@.len(),
            m == pattern@.len(),
            1 <= m <= n,
            i <= n - m + 1,
            forall|j: int| 0 <= j < i ==> #[trigger] s@.subrange(j, j + m) != pattern@,
        decreases n - m + 1 - i,
    {
        let mut k: usize = 0;
        let mut same = true;
        while k < m
            invariant
                n == s@.len(),
                m == pattern@.len(),
                i + m <= n,
                k <= m,
                same ==> forall|t: int| 0 <= t < k ==> s@[i + t] == pattern@[t],
                !same ==> s@.subrange(i as int, i + m) != pattern@,
            decreases m - k,
        {
            if same {
                if s.get_char(i + k) != pattern.get_char(k) {
                    same = false;
                    assert(s@.subrange(i as int, i + m)[k as int] == s@[i + k]);
                }
            }
            k = k + 1;
        }
        if same {
            assert(s@.subrange(i as int, i + m) =~= pattern@);
            return true;
        }
        i = i + 1;
    }
    proof {
        assert forall|j: int| 0 <= j && j + m <= n implies #[trigger] s@.subrange(j, j + m) != pattern@ by {}
    }
    false
}

/// What `str::trim` returns for `s`: `s` without leading and trailing whitespace.
pub uninterp spec fn spec_trim(s: Seq<char>) -> Seq<char>;

/// Calls `str::trim`; trusted to return its named result.
#[verifier::external_body]
fn trim(s: &str) -> (r: &str)
    ensures
        r@ == spec_trim(s@),
{
    s.trim()
}

/// The id of the module that `pactl load-module` reports on its output: the
/// output without surrounding whitespace, read as a number.
pub fn loaded_module_id(output: &str) -> (id: Option<u32>)
    ensures
        id == spec_parse_u32(spec_trim(output@)),
{
    parse_u32(trim(output))
}

/// The module id on a line of `pactl list short modules` that belongs to this
/// program (it names a `translator_` device or a `Translator.` description):
/// the line's first word, read as a number.
pub open spec fn line_module_id(line: Seq<char>) -> Option<u32> {
    if contains_seq(line, "translator_"@) || contains_seq(line, "Translator."@) {
        match spec_first_word(line) {
            Some(word) => spec_parse_u32(word),
            None => None,
        }
    } else {
        None
    }
}

/// The first word of `line` read as a number, if it is one.
pub open spec fn first_word_id(line: Seq<char>) -> Option<u32> {
    match spec_first_word(line) {
        Some(word) => spec_parse_u32(word),
        None => None,
    }
}

/// A line that names a `translator_` device or a `Translator.` description
/// (one of them or both, as the remap-source lines do) belongs to this
/// program and gives the id its first word holds; a line that names neither
/// gives none.
pub proof fn lemma_own_lines_give_their_id(line: Seq<char>)
    ensures
        contains_seq(line, "translator_"@) ==> line_module_id(line) == first_word_id(line),
        contains_seq(line, "Translator."@) ==> line_module_id(line) == first_word_id(line),
        !contains_seq(line, "translator_"@) && !contains_seq(line, "Translator."@) ==> line_module_id(line) is None,
{
}

/// Each line adds its own id, if it has one, after the ids of the lines before it.
pub proof fn lemma_module_ids_of_next_line(lines: Seq<Seq<char>>, line: Seq<char>)
    ensures
        module_ids(lines.push(line)) == (match line_module_id(line) {
            Some(id) => module_ids(lines).push(id),
            None => module_ids(lines),
        }),
{
    assert(lines.push(line).drop_last() == lines);
}

/// The module ids on `lines`, in order.
pub open spec fn module_ids(lines: Seq<Seq<char>>) -> Seq<u32>
    decreases lines.len(),
{
    if lines.len() == 0 {
        Seq::empty()
    } else {
        let rest = module_ids(lines.drop_last());
        match line_module_id(lines.last()) {
            Some(id) => rest.push(id),
            None => rest,
        }
    }
}

/// `ids` is in decreasing order.
pub open spec fn sorted_descending(ids: Seq<u32>) -> bool {
    forall|i: int, j: int| 0 <= i < j < ids.len() ==> ids[i] >= ids[j]
}

/// Inserts `id` into `sorted` (decreasing) where it keeps the order.
fn insert_descending(sorted: &mut Vec<u32>, id: u32)
    requires
        sorted_descending(old(sorted)@),
    ensures
        sorted_descending(final(sorted)@),
        final(sorted)@.to_multiset() == old(sorted)@.to_multiset().insert(id),
{
    let mut pos: usize = 0;
    while pos < sorted.len() && sorted[pos] >= id
        invariant
            pos <= sorted@.len(),
            sorted@ == old(sorted)@,
            forall|k: int| 0 <= k < pos ==> sorted@[k] >= id,
        decreases sorted@.len() - pos,
    {
        pos = pos + 1;
    }
    let ghost before = sorted@;
    sorted.insert(pos, id);
    proof {
        broadcast use vstd::seq_lib::group_to_multiset_ensures;
        assert(sorted@.remove(pos as int) =~= before);
        assert(sorted@[pos as int] == id);
        assert(sorted@.to_multiset().count(id) > 0) by {
            assert(sorted@.contains(id));
        }
        assert(sorted@.to_multiset() =~= before.to_multiset().insert(id));
    }
}

/// Ids of the modules that this program loaded, from the listing of
/// `pactl list short modules`, highest first (remap sources, created after
/// their null sinks, are unloaded first).
pub fn modules_to_unload(listing: &str) -> (ids: Vec<u32>)
    ensures
        sorted_descending(ids@),
        ids@.to_multiset() == module_ids(spec_lines(listing@)).to_multiset(),
{
    let all = lines(listing);
    let ghost all_lines = spec_lines(listing@);
    let mut ids: Vec<u32> = Vec::new();
    let mut i: usize = 0;
    while i < all.len()
        invariant
            i <= all@.len(),
            all@.len() == all_lines.len(),
            forall|k: int| 0 <= k < all@.len() ==> #[trigger] all@[k]@ == all_lines[k],
            sorted_descending(ids@),
            ids@.to_multiset() == module_ids(all_lines.subrange(0, i as int)).to_multiset(),
        decreases all@.len() - i,
    {
        let line = all[i].as_str();
        let ghost prefix = all_lines.subrange(0, i as int);
        let ghost next = all_lines.subrange(0, i + 1);
        assert(next.drop_last() == prefix);
        assert(next.last() == line@);
        if str_contains(line, "translator_") || str_contains(line, "Translator.") {
            if let Some(word) = first_word(line) {
                if let Some(id) = parse_u32(word.as_str()) {
                    insert_descending(&mut ids, id);
                    proof {
                        broadcast use vstd::seq_lib::group_to_multiset_ensures;
                        assert(module_ids(next) == module_ids(prefix).push(id));
                    }
                }
            }
        }
        i = i + 1;
    }
    assert(all_lines.subrange(0, all@.len() as int) == all_lines);
    ids
}

/// Which end of a pair is hidden from users under an internal name.
#[derive(Debug, Clone, Copy, PartialEq, Eq, Structural)]
pub enum HiddenDevice {
    /// The microphone side is internal.
    Input,
    /// The speaker side is internal.
    Output,
}

/// Names of the devices of one pair and the arguments of the two modules that create them.
pub struct PairNames {
    /// Name of the null sink.
    pub sink_name: String,
    /// Name of the remapped source.
    pub source_name: String,
    /// Description of the sink (the speaker users see or an internal name).
    pub output_name: String,
    /// Description of the source (the microphone users see or an internal name).
    pub input_name: String,
    /// `sink_properties` argument of the null-sink module.
    pub sink_properties: String,
    /// `master` argument of the remap-source module: the sink's monitor.
    pub source_master: String,
    /// `source_properties` argument of the remap-source module.
    pub source_properties: String,
}

fn join2(a: &str, b: &str) -> (r: String)
    ensures
        r@ == a@ + b@,
{
    let mut s = String::from_str(a);
    s.append(b);
    s
}

/// The names of the pair for language `lang` (lower-cased in device names,
/// upper-cased in descriptions) and role `prefix`.
pub fn pair_names(lang: &str, prefix: &str, hide_device: HiddenDevice) -> (names: PairNames)
    ensures
        ({
            let lower = spec_to_lowercase(lang@);
            let upper = spec_to_uppercase(lower);
            &&& names.sink_name@ == "translator_"@ + lower + "_"@ + prefix@ + "_speaker"@
            &&& names.source_name@ == "translator_"@ + lower + "_"@ + prefix@ + "_microphone"@
            &&& names.output_name@ == (match hide_device {
                HiddenDevice::Output => "___internal.not_use."@ + upper,
                HiddenDevice::Input => "Translator."@ + upper + "."@ + prefix@ + ".Speaker"@,
            })
            &&& names.input_name@ == (match hide_device {
                HiddenDevice::Output => "Translator."@ + upper + "."@ + prefix@ + ".Microphone"@,
                HiddenDevice::Input => "___internal.not_use."@ + upper + "_"@,
            })
            &&& names.sink_properties@ == "device.description="@ + names.output_name@
            &&& names.source_master@ == names.sink_name@ + ".monitor"@
            &&& names.source_properties@ == "device.description="@ + names.input_name@
        }),
{
    let lang = to_lowercase(lang);
    let upper = to_uppercase(lang.as_str());

    let mut sink_name = join2("translator_", lang.as_str());
    sink_name.append("_");
    sink_name.append(prefix);
    sink_name.append("_speaker");

    let mut source_name = join2("translator_", lang.as_str());
    source_name.append("_");
    source_name.append(prefix);
    source_name.append("_microphone");

    let output_name = match hide_device {
        HiddenDevice::Output => join2("___internal.not_use.", upper.as_str()),
        HiddenDevice::Input => {
            let mut s = join2("Translator.", upper.as_str());
            s.append(".");
            s.append(prefix);
            s.append(".Speaker");
            s
        },
    };
    let sink_properties = join2("device.description=", output_name.as_str());

    let input_name = match hide_device {
        HiddenDevice::Output => {
            let mut s = join2("Translator.", upper.as_str());
            s.append(".");
            s.append(prefix);
            s.append(".Microphone");
            s
        },
        HiddenDevice::Input => {
            let mut s = join2("___internal.not_use.", upper.as_str());
            s.append("_");
            s
        },
    };
    let source_master = join2(sink_name.as_str(), ".monitor");
    let source_properties = join2("device.description=", input_name.as_str());

    PairNames {
        sink_name,
        source_name,
        output_name,
        input_name,
        sink_properties,
        source_master,
        source_properties,
    }
}

/// A virtual speaker and microphone, with the ids of the modules that created them.
#[derive(Clone)]
pub struct VirtualDevicePair {
    /// Name of the null sink.
    pub sink_name: String,
    /// Name of the remapped source.
    pub source_name: String,
    /// Description of the speaker side.
    pub output_name: String,
    /// Description of the microphone side.
    pub input_name: String,
    /// Id of the null-sink module.
    pub sink_module: u32,
    /// Id of the remap-source module.
    pub source_module: u32,
}

impl VirtualDevicePair {
    /// The pair named by `names`, created by the modules with the given ids.
    pub fn new(names: PairNames, sink_module: u32, source_module: u32) -> (pair: Self)
        ensures
            pair.sink_name@ == names.sink_name@,
            pair.source_name@ == names.source_name@,
            pair.output_name@ == names.output_name@,
            pair.input_name@ == names.input_name@,
            pair.sink_module == sink_module,
            pair.source_module == source_module,
    {
        VirtualDevicePair {
            sink_name: names.sink_name,
            source_name: names.source_name,
            output_name: names.output_name,
            input_name: names.input_name,
            sink_module,
            source_module,
        }
    }
}

} // verus!
