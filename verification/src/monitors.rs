//! Monitor names, their canonical form, and the blanking decision: which
//! of the enumerated monitors receive an opaque overlay.

use vstd::prelude::*;

use crate::settings::{MonitorBlankingMode, Settings};
use crate::text::{chars_of, is_space, spec_is_space, spec_upper_seq, string_from_chars,
    upper_chars};

verus! {

/// A monitor's bounding rectangle in virtual-screen coordinates.
#[derive(Clone, Copy, Debug, PartialEq, Eq, Structural)]
pub struct Rect {
    pub left: i32,
    pub top: i32,
    pub right: i32,
    pub bottom: i32,
}

/// One enumerated monitor: its device name and bounds. Produced fresh each
/// time overlays are computed, never cached across a settings change.
#[derive(Debug)]
pub struct MonitorDescriptor {
    pub name: String,
    pub rect: Rect,
}

impl Clone for MonitorDescriptor {
    fn clone(&self) -> (r: Self)
        ensures
            r == *self,
    {
        MonitorDescriptor { name: self.name.clone(), rect: self.rect }
    }
}

/// Leading whitespace removed.
pub open spec fn spec_trim_start(s: Seq<char>) -> Seq<char>
    decreases s.len(),
{
    if s.len() > 0 && spec_is_space(s[0]) {
        spec_trim_start(s.drop_first())
    } else {
        s
    }
}

/// Trailing whitespace removed.
pub open spec fn spec_trim_end(s: Seq<char>) -> Seq<char>
    decreases s.len(),
{
    if s.len() > 0 && spec_is_space(s.last()) {
        spec_trim_end(s.drop_last())
    } else {
        s
    }
}

/// Whitespace removed from both ends, the meaning of `str::trim`.
pub open spec fn spec_trim(s: Seq<char>) -> Seq<char> {
    spec_trim_end(spec_trim_start(s))
}

/// The device-path prefix that the OS puts before display names.
pub open spec fn spec_device_prefix() -> Seq<char> {
    seq!['\\', '\\', '.', '\\']
}

/// Every leading repetition of the device-path prefix removed.
pub open spec fn spec_strip_device_prefix(s: Seq<char>) -> Seq<char>
    decreases s.len(),
{
    if s.len() >= 4 && s.subrange(0, 4) == spec_device_prefix() {
        spec_strip_device_prefix(s.skip(4))
    } else {
        s
    }
}

/// The canonical display-name prefix.
pub open spec fn spec_display_prefix() -> Seq<char> {
    seq!['D', 'I', 'S', 'P', 'L', 'A', 'Y']
}

/// The canonical, comparison-stable form of a monitor device name: trimmed,
/// stripped of the device-path prefix, ASCII-uppercased, and given a
/// `DISPLAY` prefix when it lacks one.
pub open spec fn spec_canonical_name(s: Seq<char>) -> Seq<char> {
    let u = spec_upper_seq(spec_strip_device_prefix(spec_trim(s)));
    if u.len() >= 7 && u.subrange(0, 7) == spec_display_prefix() {
        u
    } else {
        spec_display_prefix() + u
    }
}

/// Canonicalizes a monitor device name so that `"2"`, `"display2"` and the
/// OS-native `"\\.\DISPLAY2"` all compare equal.
pub fn canonicalize_name(name: &str) -> (r: String)
    ensures
        r@ == spec_canonical_name(name@),
{
    let chars = chars_of(name);
    let n = chars.len();

    assert(chars@.skip(0) =~= chars@);
    let mut start: usize = 0;
    while start < n && is_space(chars[start])
        invariant
            n == chars@.len(),
            start <= n,
            spec_trim_start(chars@) == spec_trim_start(chars@.skip(start as int)),
        decreases n - start,
    {
        proof {
            let t = chars@.skip(start as int);
            assert(t[0] == chars@[start as int]);
            assert(t.drop_first() =~= chars@.skip(start as int + 1));
        }
        start = start + 1;
    }
    proof {
        let t = chars@.skip(start as int);
        assert(spec_trim_start(t) == t);
        assert(spec_trim_start(chars@) == chars@.skip(start as int));
    }

    let mut end: usize = n;
    while end > start && is_space(chars[end - 1])
        invariant
            n == chars@.len(),
            start <= end <= n,
            spec_trim_end(chars@.subrange(start as int, n as int)) == spec_trim_end(
                chars@.subrange(start as int, end as int),
            ),
        decreases end,
    {
        proof {
            let t = chars@.subrange(start as int, end as int);
            assert(t.last() == chars@[end - 1]);
            assert(t.drop_last() =~= chars@.subrange(start as int, end as int - 1));
        }
        end = end - 1;
    }
    proof {
        let t = chars@.subrange(start as int, end as int);
        assert(spec_trim_end(t) == t);
        assert(chars@.skip(start as int) =~= chars@.subrange(start as int, n as int));
        assert(spec_trim(chars@) == chars@.subrange(start as int, end as int));
    }

    let mut p: usize = start;
    while end - p >= 4 && chars[p] == '\\' && chars[p + 1] == '\\' && chars[p + 2] == '.' && chars[p
        + 3] == '\\'
        invariant
            n == chars@.len(),
            start <= p <= end <= n,
            spec_strip_device_prefix(chars@.subrange(start as int, end as int))
                == spec_strip_device_prefix(chars@.subrange(p as int, end as int)),
        decreases end - p,
    {
        proof {
            let t = chars@.subrange(p as int, end as int);
            assert(t[0] == chars@[p as int]);
            assert(t[1] == chars@[p as int + 1]);
            assert(t[2] == chars@[p as int + 2]);
            assert(t[3] == chars@[p as int + 3]);
            assert(t.subrange(0, 4) =~= spec_device_prefix());
            assert(t.skip(4) =~= chars@.subrange(p as int + 4, end as int));
        }
        p = p + 4;
    }
    proof {
        let t = chars@.subrange(p as int, end as int);
        assert(spec_strip_device_prefix(t) == t) by {
            if t.len() >= 4 && t.subrange(0, 4) == spec_device_prefix() {
                assert(t[0] == t.subrange(0, 4)[0]);
                assert(t[1] == t.subrange(0, 4)[1]);
                assert(t[2] == t.subrange(0, 4)[2]);
                assert(t[3] == t.subrange(0, 4)[3]);
                assert(chars@[p as int] == '\\' && chars@[p as int + 1] == '\\' && chars@[p as int
                    + 2] == '.' && chars@[p as int + 3] == '\\');
                assert(false);
            }
        };
        assert(spec_strip_device_prefix(spec_trim(chars@)) == chars@.subrange(
            p as int,
            end as int,
        ));
    }

    let mut stripped: Vec<char> = Vec::new();
    let mut j: usize = p;
    while j < end
        invariant
            n == chars@.len(),
            p <= j <= end <= n,
            stripped@ == chars@.subrange(p as int, j as int),
        decreases end - j,
    {
        stripped.push(chars[j]);
        j = j + 1;
        assert(stripped@ =~= chars@.subrange(p as int, j as int));
    }
    let upper = upper_chars(&stripped);

    let has_prefix: bool = upper.len() >= 7 && upper[0] == 'D' && upper[1] == 'I' && upper[2] == 'S'
        && upper[3] == 'P' && upper[4] == 'L' && upper[5] == 'A' && upper[6] == 'Y';
    proof {
        if has_prefix {
            assert(upper@.subrange(0, 7) =~= spec_display_prefix());
        } else if upper@.len() >= 7 {
            if upper@.subrange(0, 7) == spec_display_prefix() {
                assert(upper@[0] == upper@.subrange(0, 7)[0]);
                assert(upper@[1] == upper@.subrange(0, 7)[1]);
                assert(upper@[2] == upper@.subrange(0, 7)[2]);
                assert(upper@[3] == upper@.subrange(0, 7)[3]);
                assert(upper@[4] == upper@.subrange(0, 7)[4]);
                assert(upper@[5] == upper@.subrange(0, 7)[5]);
                assert(upper@[6] == upper@.subrange(0, 7)[6]);
                assert(false);
            }
        }
    }

    if has_prefix {
        string_from_chars(&upper)
    } else {
        let mut out: Vec<char> = Vec::new();
        out.push('D');
        out.push('I');
        out.push('S');
        out.push('P');
        out.push('L');
        out.push('A');
        out.push('Y');
        let mut k: usize = 0;
        while k < upper.len()
            invariant
                k <= upper@.len(),
                out@ == spec_display_prefix() + upper@.subrange(0, k as int),
            decreases upper@.len() - k,
        {
            out.push(upper[k]);
            k = k + 1;
            assert(out@ =~= spec_display_prefix() + upper@.subrange(0, k as int));
        }
        assert(out@ =~= spec_display_prefix() + upper@);
        string_from_chars(&out)
    }
}

/// The names of the enumerated monitors, in enumeration order.
pub fn available_monitor_names(monitors: &Vec<MonitorDescriptor>) -> (r: Vec<String>)
    ensures
        r@.len() == monitors@.len(),
        forall|i: int| 0 <= i < monitors@.len() ==> r@[i]@ == monitors@[i].name@,
{
    let mut r: Vec<String> = Vec::new();
    let mut i: usize = 0;
    while i < monitors.len()
        invariant
            i <= monitors@.len(),
            r@.len() == i,
            forall|j: int| 0 <= j < i ==> r@[j]@ == monitors@[j].name@,
        decreases monitors@.len() - i,
    {
        r.push(monitors[i].name.clone());
        i = i + 1;
    }
    r
}

/// Whether the policy blanks this monitor: never under `Off`, always under
/// `All`, and under `Custom` exactly when some entry of the disable list
/// canonicalizes to the monitor's canonical name.
pub open spec fn spec_is_blanked(settings: Settings, m: MonitorDescriptor) -> bool {
    match settings.monitor_mode {
        MonitorBlankingMode::Off => false,
        MonitorBlankingMode::All => true,
        MonitorBlankingMode::Custom => exists|j: int|
            0 <= j < settings.disable_monitors@.len() && spec_canonical_name(
                #[trigger] settings.disable_monitors@[j]@,
            ) == spec_canonical_name(m.name@),
    }
}

/// Whether some entry of the disable list canonicalizes to the same name.
fn name_is_disabled(disable_monitors: &Vec<String>, canonical: &String) -> (r: bool)
    ensures
        r == exists|j: int|
            0 <= j < disable_monitors@.len() && spec_canonical_name(
                #[trigger] disable_monitors@[j]@,
            ) == canonical@,
{
    let mut j: usize = 0;
    while j < disable_monitors.len()
        invariant
            j <= disable_monitors@.len(),
            forall|k: int|
                0 <= k < j ==> spec_canonical_name(#[trigger] disable_monitors@[k]@) != canonical@,
        decreases disable_monitors@.len() - j,
    {
        let c = canonicalize_name(disable_monitors[j].as_str());
        if c == *canonical {
            return true;
        }
        j = j + 1;
    }
    false
}

/// The subset of the enumerated monitors that the blanking policy covers,
/// in enumeration order. `Custom` with an empty disable list blanks
/// nothing.
pub fn blanking_targets(settings: &Settings, monitors: &Vec<MonitorDescriptor>) -> (r: Vec<
    MonitorDescriptor,
>)
    ensures
        r@ == monitors@.filter(|m: MonitorDescriptor| spec_is_blanked(*settings, m)),
{
    let ghost pred = |m: MonitorDescriptor| spec_is_blanked(*settings, m);
    proof {
        assert(monitors@.take(0) =~= Seq::<MonitorDescriptor>::empty());
        assert(Seq::<MonitorDescriptor>::empty().filter(pred) =~= Seq::<
            MonitorDescriptor,
        >::empty()) by {
            reveal_with_fuel(Seq::filter, 2);
        }
    }
    let mut r: Vec<MonitorDescriptor> = Vec::new();
    let mut i: usize = 0;
    while i < monitors.len()
        invariant
            i <= monitors@.len(),
            pred == (|m: MonitorDescriptor| spec_is_blanked(*settings, m)),
            r@ == monitors@.take(i as int).filter(pred),
        decreases monitors@.len() - i,
    {
        let is_target: bool = match settings.monitor_mode {
            MonitorBlankingMode::Off => false,
            MonitorBlankingMode::All => true,
            MonitorBlankingMode::Custom => {
                let canonical = canonicalize_name(monitors[i].name.as_str());
                name_is_disabled(&settings.disable_monitors, &canonical)
            },
        };
        proof {
            assert(is_target == pred(monitors@[i as int]));
            let taken = monitors@.take(i as int);
            let next = monitors@.take(i as int + 1);
            assert(next.drop_last() =~= taken);
            assert(next.last() == monitors@[i as int]);
            reveal_with_fuel(Seq::filter, 2);
            assert(next.filter(pred) == if pred(monitors@[i as int]) {
                taken.filter(pred).push(monitors@[i as int])
            } else {
                taken.filter(pred)
            });
        }
        if is_target {
            r.push(monitors[i].clone());
        }
        i = i + 1;
    }
    proof {
        assert(monitors@.take(monitors@.len() as int) =~= monitors@);
    }
    r
}

proof fn lemma_upper_seq_drop_first(s: Seq<char>)
    requires
        s.len() > 0,
    ensures
        spec_upper_seq(s).drop_first() == spec_upper_seq(s.drop_first()),
{
    assert(spec_upper_seq(s).drop_first() =~= spec_upper_seq(s.drop_first()));
}

proof fn lemma_trim_start_upper(s: Seq<char>)
    ensures
        spec_trim_start(spec_upper_seq(s)) == spec_upper_seq(spec_trim_start(s)),
    decreases s.len(),
{
    let u = spec_upper_seq(s);
    if s.len() > 0 && spec_is_space(s[0]) {
        assert(u[0] == s[0]);
        lemma_upper_seq_drop_first(s);
        lemma_trim_start_upper(s.drop_first());
    } else if s.len() > 0 {
        assert(!spec_is_space(u[0]));
    } else {
        assert(u.len() == 0);
    }
}

proof fn lemma_upper_seq_drop_last(s: Seq<char>)
    requires
        s.len() > 0,
    ensures
        spec_upper_seq(s).drop_last() == spec_upper_seq(s.drop_last()),
{
    assert(spec_upper_seq(s).drop_last() =~= spec_upper_seq(s.drop_last()));
}

proof fn lemma_trim_end_upper(s: Seq<char>)
    ensures
        spec_trim_end(spec_upper_seq(s)) == spec_upper_seq(spec_trim_end(s)),
    decreases s.len(),
{
    let u = spec_upper_seq(s);
    if s.len() > 0 && spec_is_space(s.last()) {
        assert(u.last() == s.last());
        lemma_upper_seq_drop_last(s);
        lemma_trim_end_upper(s.drop_last());
    } else if s.len() > 0 {
        assert(!spec_is_space(u.last()));
    } else {
        assert(u.len() == 0);
    }
}

proof fn lemma_strip_upper(s: Seq<char>)
    ensures
        spec_strip_device_prefix(spec_upper_seq(s)) == spec_upper_seq(spec_strip_device_prefix(s)),
    decreases s.len(),
{
    let u = spec_upper_seq(s);
    if s.len() >= 4 && s.subrange(0, 4) == spec_device_prefix() {
        assert(u.subrange(0, 4) =~= spec_device_prefix()) by {
            assert(s[0] == s.subrange(0, 4)[0]);
            assert(s[1] == s.subrange(0, 4)[1]);
            assert(s[2] == s.subrange(0, 4)[2]);
            assert(s[3] == s.subrange(0, 4)[3]);
        }
        assert(u.skip(4) =~= spec_upper_seq(s.skip(4)));
        lemma_strip_upper(s.skip(4));
    } else if u.len() >= 4 && u.subrange(0, 4) == spec_device_prefix() {
        assert(u[0] == u.subrange(0, 4)[0]);
        assert(u[1] == u.subrange(0, 4)[1]);
        assert(u[2] == u.subrange(0, 4)[2]);
        assert(u[3] == u.subrange(0, 4)[3]);
        assert(s[0] == '\\' && s[1] == '\\' && s[2] == '.' && s[3] == '\\');
        assert(s.subrange(0, 4) =~= spec_device_prefix());
        assert(false);
    }
}

proof fn lemma_upper_idempotent(s: Seq<char>)
    ensures
        spec_upper_seq(spec_upper_seq(s)) == spec_upper_seq(s),
{
    assert(spec_upper_seq(spec_upper_seq(s)) =~= spec_upper_seq(s));
}

proof fn lemma_canonical_of_upper(s: Seq<char>)
    ensures
        spec_canonical_name(spec_upper_seq(s)) == spec_canonical_name(s),
{
    lemma_trim_start_upper(s);
    lemma_trim_end_upper(spec_trim_start(s));
    lemma_strip_upper(spec_trim(s));
    lemma_upper_idempotent(spec_strip_device_prefix(spec_trim(s)));
}

/// Canonicalization is ASCII-case-insensitive: two spellings of a name that
/// agree up to letter case canonicalize identically.
pub proof fn lemma_canonical_name_case_insensitive(a: Seq<char>, b: Seq<char>)
    requires
        spec_upper_seq(a) == spec_upper_seq(b),
    ensures
        spec_canonical_name(a) == spec_canonical_name(b),
{
    lemma_canonical_of_upper(a);
    lemma_canonical_of_upper(b);
}

/// Canonicalization is prefix-insensitive: putting the OS device-path
/// prefix before a name that carries no surrounding whitespace changes the
/// canonical form not at all.
pub proof fn lemma_canonical_name_prefix_insensitive(s: Seq<char>)
    requires
        s.len() > 0 ==> !spec_is_space(s[0]) && !spec_is_space(s.last()),
    ensures
        spec_canonical_name(spec_device_prefix() + s) == spec_canonical_name(s),
{
    let p = spec_device_prefix() + s;
    assert(p[0] == '\\');
    assert(spec_trim_start(p) == p);
    if s.len() > 0 {
        assert(p.last() == s.last());
    } else {
        assert(p.last() == '\\');
    }
    assert(spec_trim_end(p) == p);
    assert(p.subrange(0, 4) =~= spec_device_prefix());
    assert(p.skip(4) =~= s);
    assert(spec_strip_device_prefix(p) == spec_strip_device_prefix(s));
    if s.len() > 0 {
        assert(spec_trim_start(s) == s);
        assert(spec_trim_end(s) == s);
    } else {
        assert(spec_trim(s) == s);
    }
}

/// A `Custom` policy with an empty disable list blanks nothing, whatever
/// monitors are enumerated.
pub proof fn lemma_custom_empty_blanks_nothing(settings: Settings, monitors: Seq<
    MonitorDescriptor,
>)
    requires
        settings.monitor_mode == MonitorBlankingMode::Custom,
        settings.disable_monitors@.len() == 0,
    ensures
        monitors.filter(|m: MonitorDescriptor| spec_is_blanked(settings, m)) == Seq::<
            MonitorDescriptor,
        >::empty(),
    decreases monitors.len(),
{
    reveal_with_fuel(Seq::filter, 2);
    if monitors.len() == 0 {
        assert(monitors =~= Seq::<MonitorDescriptor>::empty());
    } else {
        lemma_custom_empty_blanks_nothing(settings, monitors.drop_last());
        assert(!spec_is_blanked(settings, monitors.last()));
    }
}

/// The `All` policy blanks every enumerated monitor.
pub proof fn lemma_all_blanks_everything(settings: Settings, monitors: Seq<MonitorDescriptor>)
    requires
        settings.monitor_mode == MonitorBlankingMode::All,
    ensures
        monitors.filter(|m: MonitorDescriptor| spec_is_blanked(settings, m)) == monitors,
    decreases monitors.len(),
{
    reveal_with_fuel(Seq::filter, 2);
    if monitors.len() == 0 {
        assert(monitors.filter(|m: MonitorDescriptor| spec_is_blanked(settings, m)) =~= monitors);
    } else {
        lemma_all_blanks_everything(settings, monitors.drop_last());
        assert(spec_is_blanked(settings, monitors.last()));
        assert(monitors.filter(|m: MonitorDescriptor| spec_is_blanked(settings, m)) =~= monitors);
    }
}

/// The `Off` policy blanks nothing.
pub proof fn lemma_off_blanks_nothing(settings: Settings, monitors: Seq<MonitorDescriptor>)
    requires
        settings.monitor_mode == MonitorBlankingMode::Off,
    ensures
        monitors.filter(|m: MonitorDescriptor| spec_is_blanked(settings, m)) == Seq::<
            MonitorDescriptor,
        >::empty(),
    decreases monitors.len(),
{
    reveal_with_fuel(Seq::filter, 2);
    if monitors.len() == 0 {
        assert(monitors =~= Seq::<MonitorDescriptor>::empty());
    } else {
        lemma_off_blanks_nothing(settings, monitors.drop_last());
        assert(!spec_is_blanked(settings, monitors.last()));
    }
}

/// The number of code units before the first NUL, or the whole length.
pub open spec fn spec_nul_prefix_len(s: Seq<u16>) -> int
    decreases s.len(),
{
    if s.len() == 0 {
        0
    } else if s[0] == 0 {
        0
    } else {
        1 + spec_nul_prefix_len(s.drop_first())
    }
}

/// What `String::from_utf16_lossy` decodes the code units to; it depends on
/// the code units alone.
pub uninterp spec fn spec_utf16_lossy(units: Seq<u16>) -> Seq<char>;

/// Relies on `String::from_utf16_lossy`: decodes UTF-16, replacing invalid
/// data with the replacement character.
#[verifier::external_body]
fn decode_utf16_lossy(units: &[u16]) -> (r: String)
    ensures
        r@ == spec_utf16_lossy(units@),
{
    String::from_utf16_lossy(units)
}

/// Decodes a NUL-terminated UTF-16 buffer, as the OS hands monitor device
/// names over: everything before the first NUL, decoded lossily.
pub fn widestring_to_string(buffer: &[u16]) -> (r: String)
    ensures
        r@ == spec_utf16_lossy(buffer@.take(spec_nul_prefix_len(buffer@))),
{
    let n = buffer.len();
    assert(buffer@.skip(0) =~= buffer@);
    let mut i: usize = 0;
    while i < n && *vstd::slice::slice_index_get(buffer, i) != 0
        invariant
            n == buffer@.len(),
            i <= n,
            spec_nul_prefix_len(buffer@) == i + spec_nul_prefix_len(buffer@.skip(i as int)),
            forall|j: int| 0 <= j < i ==> buffer@[j] != 0,
        decreases n - i,
    {
        proof {
            let t = buffer@.skip(i as int);
            assert(t[0] == buffer@[i as int]);
            assert(t.drop_first() =~= buffer@.skip(i as int + 1));
        }
        i = i + 1;
    }
    proof {
        let t = buffer@.skip(i as int);
        assert(spec_nul_prefix_len(t) == 0);
        assert(spec_nul_prefix_len(buffer@) == i);
    }
    let prefix = vstd::slice::slice_subrange(buffer, 0, i);
    assert(prefix@ =~= buffer@.take(spec_nul_prefix_len(buffer@)));
    decode_utf16_lossy(prefix)
}

} // verus!
