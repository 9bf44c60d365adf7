//! Byte-level terminal stream handling: removal of escape sequences that
//! upset a Linux terminal (output shown by the CLI), escaping of control
//! bytes (PTY output sent by the daemon) and line-ending conversion (input
//! written to a Windows PTY).

use vstd::prelude::*;

verus! {

pub const ESC: u8 = 0x1b;

pub const BEL: u8 = 0x07;

/// A byte of a CSI parameter list: an ASCII digit or `;`.
pub open spec fn is_param_byte(b: u8) -> bool {
    (0x30 <= b && b <= 0x39) || b == 0x3b
}

/// The first index at or after `i` that does not hold a parameter byte
/// (or the length of `d` when there is none).
pub open spec fn param_end(d: Seq<u8>, i: int) -> int
    decreases d.len() - i,
{
    if 0 <= i < d.len() && is_param_byte(d[i]) {
        param_end(d, i + 1)
    } else {
        i
    }
}

/// `p[i..j]` is one of the `;`-separated fields of `p`.
pub open spec fn field_at(p: Seq<u8>, i: int, j: int) -> bool {
    &&& 0 <= i <= j <= p.len()
    &&& (i == 0 || p[i - 1] == 0x3b)
    &&& (j == p.len() || p[j] == 0x3b)
    &&& forall|k: int| i <= k < j ==> p[k] != 0x3b
}

/// The DEC private modes whose set/reset sequences are dropped:
/// 9001 (win32 input), 1004 (focus reporting), 1049 (alternate screen),
/// 2004 (bracketed paste) and 25 (cursor visibility).
pub open spec fn is_filtered_mode(f: Seq<u8>) -> bool {
    ||| f == seq![0x39u8, 0x30u8, 0x30u8, 0x31u8]
    ||| f == seq![0x31u8, 0x30u8, 0x30u8, 0x34u8]
    ||| f == seq![0x31u8, 0x30u8, 0x34u8, 0x39u8]
    ||| f == seq![0x32u8, 0x30u8, 0x30u8, 0x34u8]
    ||| f == seq![0x32u8, 0x35u8]
}

pub open spec fn has_filtered_mode(p: Seq<u8>) -> bool {
    exists|i: int, j: int| #[trigger] field_at(p, i, j) && is_filtered_mode(p.subrange(i, j))
}

/// Where the parameters of a CSI sequence start: after the `?`, `>` or `=`
/// marker when there is one.
pub open spec fn csi_params_start(d: Seq<u8>) -> int {
    if d[2] == 0x3f || d[2] == 0x3e || d[2] == 0x3d {
        3
    } else {
        2
    }
}

/// The length of the CSI sequence (`ESC [ ...`) at the start of `d` when it
/// is one that is dropped, `None` when it is kept or incomplete.
pub open spec fn csi_filter_len(d: Seq<u8>) -> Option<int> {
    if d.len() < 3 {
        None
    } else {
        let start = csi_params_start(d);
        let end = param_end(d, start);
        if end >= d.len() {
            None
        } else {
            let fin = d[end];
            let params = d.subrange(start, end);
            if fin < 0x40 || fin > 0x7e {
                None
            } else if d[2] == 0x3f {
                // DEC private modes: drop set/reset of the troublesome ones
                if (fin == 0x68 || fin == 0x6c) && has_filtered_mode(params) {
                    Some(end + 1)
                } else {
                    None
                }
            } else if d[2] == 0x3e || d[2] == 0x3d {
                // xterm key modifiers and kitty keyboard protocol
                Some(end + 1)
            } else if fin == 0x4a {
                // erase in display: `ESC[J`, `ESC[2J`, `ESC[3J`
                if params.len() == 0 || params == seq![0x32u8] || params == seq![0x33u8] {
                    Some(end + 1)
                } else {
                    None
                }
            } else if fin == 0x48 {
                // cursor home: `ESC[H`, `ESC[1;1H`
                if params.len() == 0 || params == seq![0x31u8, 0x3bu8, 0x31u8] {
                    Some(end + 1)
                } else {
                    None
                }
            } else {
                None
            }
        }
    }
}

/// The first terminator of an OSC sequence at or after `i`: BEL, or ST
/// (`ESC \`); the result is the length up to and including it.
pub open spec fn osc_terminator(d: Seq<u8>, i: int) -> Option<int>
    decreases d.len() - i,
{
    if i < 0 || i >= d.len() {
        None
    } else if d[i] == BEL {
        Some(i + 1)
    } else if d[i] == ESC && i + 1 < d.len() && d[i + 1] == 0x5c {
        Some(i + 2)
    } else {
        osc_terminator(d, i + 1)
    }
}

/// The length of the OSC sequence (`ESC ] ...`) at the start of `d`, which
/// is always dropped once it is terminated.
pub open spec fn osc_filter_len(d: Seq<u8>) -> Option<int> {
    if d.len() < 3 {
        None
    } else {
        osc_terminator(d, 2)
    }
}

/// The length of the escape sequence at the start of `d` when it is dropped.
pub open spec fn escape_filter_len(d: Seq<u8>) -> Option<int> {
    if d.len() < 2 || d[0] != ESC {
        None
    } else if d[1] == 0x5b {
        csi_filter_len(d)
    } else if d[1] == 0x5d {
        osc_filter_len(d)
    } else {
        None
    }
}

/// `d` with every dropped escape sequence removed, scanning from the front.
pub open spec fn filter_sequences(d: Seq<u8>) -> Seq<u8>
    decreases d.len(),
{
    if d.len() == 0 {
        Seq::empty()
    } else if escape_filter_len(d) is Some && 0 < escape_filter_len(d)->0 <= d.len() {
        filter_sequences(d.skip(escape_filter_len(d)->0))
    } else {
        seq![d[0]] + filter_sequences(d.skip(1))
    }
}

pub open spec fn as_len(r: Option<usize>) -> Option<int> {
    match r {
        Some(n) => Some(n as int),
        None => None,
    }
}

proof fn lemma_param_end_bounds(d: Seq<u8>, i: int)
    requires
        0 <= i <= d.len(),
    ensures
        i <= param_end(d, i) <= d.len(),
        forall|k: int| i <= k < param_end(d, i) ==> is_param_byte(#[trigger] d[k]),
        param_end(d, i) < d.len() ==> !is_param_byte(d[param_end(d, i)]),
    decreases d.len() - i,
{
    if i < d.len() && is_param_byte(d[i]) {
        lemma_param_end_bounds(d, i + 1);
    }
}

proof fn lemma_osc_terminator_bounds(d: Seq<u8>, i: int)
    requires
        0 <= i,
    ensures
        osc_terminator(d, i) matches Some(n) ==> i < n <= d.len(),
    decreases d.len() - i,
{
    if i < d.len() && d[i] != BEL && !(d[i] == ESC && i + 1 < d.len() && d[i + 1] == 0x5c) {
        lemma_osc_terminator_bounds(d, i + 1);
    }
}

/// A dropped escape sequence is at least three bytes long and lies within
/// the input.
pub proof fn lemma_escape_filter_len_bounds(d: Seq<u8>)
    ensures
        escape_filter_len(d) matches Some(n) ==> 3 <= n <= d.len(),
{
    if d.len() >= 3 {
        lemma_param_end_bounds(d, csi_params_start(d));
        lemma_osc_terminator_bounds(d, 2);
    }
}

/// Filtering only drops bytes: the output is never longer than the input.
pub proof fn lemma_filter_never_grows(d: Seq<u8>)
    ensures
        filter_sequences(d).len() <= d.len(),
    decreases d.len(),
{
    if d.len() > 0 {
        if escape_filter_len(d) is Some && 0 < escape_filter_len(d)->0 <= d.len() {
            lemma_filter_never_grows(d.skip(escape_filter_len(d)->0));
        } else {
            lemma_filter_never_grows(d.skip(1));
        }
    }
}

/// Output without an ESC byte passes the filter unchanged.
pub proof fn lemma_filter_keeps_plain_text(d: Seq<u8>)
    requires
        forall|i: int| 0 <= i < d.len() ==> d[i] != ESC,
    ensures
        filter_sequences(d) == d,
    decreases d.len(),
{
    if d.len() > 0 {
        assert(escape_filter_len(d) is None);
        let rest = d.skip(1);
        assert forall|i: int| 0 <= i < rest.len() implies rest[i] != ESC by {
            assert(rest[i] == d[i + 1]);
        }
        lemma_filter_keeps_plain_text(rest);
        assert(seq![d[0]] + rest =~= d);
    }
}

proof fn lemma_param_end_all(d: Seq<u8>, i: int)
    requires
        0 <= i <= d.len(),
        forall|k: int| i <= k < d.len() ==> is_param_byte(#[trigger] d[k]),
    ensures
        param_end(d, i) == d.len(),
    decreases d.len() - i,
{
    if i < d.len() {
        lemma_param_end_all(d, i + 1);
    }
}

proof fn lemma_param_end_agree(a: Seq<u8>, b: Seq<u8>, i: int)
    requires
        0 <= i <= param_end(a, i) < a.len(),
        param_end(a, i) < b.len(),
        forall|k: int| i <= k <= param_end(a, i) ==> a[k] == b[k],
    ensures
        param_end(b, i) == param_end(a, i),
    decreases a.len() - i,
{
    if is_param_byte(a[i]) {
        lemma_param_end_bounds(a, i + 1);
        lemma_param_end_agree(a, b, i + 1);
    }
}

/// The shape of a dropped CSI sequence: at least three bytes, ending in a
/// final byte in 0x40..=0x7e, with only digits and `;` between its marker
/// (if any) and that final byte; an input shorter than three bytes is never
/// one.
pub proof fn lemma_csi_filter_len_shape(d: Seq<u8>)
    ensures
        d.len() < 3 ==> csi_filter_len(d) is None,
        csi_filter_len(d) matches Some(n) ==> {
            &&& 3 <= n <= d.len()
            &&& 0x40 <= d[n - 1] <= 0x7e
            &&& forall|k: int| csi_params_start(d) <= k < n - 1 ==> is_param_byte(#[trigger] d[k])
        },
{
    if d.len() >= 3 {
        lemma_param_end_bounds(d, csi_params_start(d));
    }
}

/// A CSI sequence whose parameter list runs to the end of the input is
/// unfinished, and is not dropped (yet).
pub proof fn lemma_csi_unfinished_kept(d: Seq<u8>)
    requires
        d.len() >= 3,
        d[2] == 0x3f || d[2] == 0x3e || d[2] == 0x3d || is_param_byte(d[2]),
        forall|k: int| 3 <= k < d.len() ==> is_param_byte(#[trigger] d[k]),
    ensures
        csi_filter_len(d) is None,
{
    lemma_param_end_all(d, 3);
    if !(d[2] == 0x3f || d[2] == 0x3e || d[2] == 0x3d) {
        assert(is_param_byte(d[2]));
    }
}

/// Whatever follows a dropped CSI sequence, it is dropped with the same
/// length.
pub proof fn lemma_csi_filter_len_extends(d: Seq<u8>, ext: Seq<u8>)
    requires
        csi_filter_len(d) is Some,
    ensures
        csi_filter_len(d.take(csi_filter_len(d)->0) + ext) == csi_filter_len(d),
{
    lemma_param_end_bounds(d, csi_params_start(d));
    let n = csi_filter_len(d)->0;
    let e = d.take(n) + ext;
    assert forall|k: int| 0 <= k < n implies e[k] == d[k] by {}
    let start = csi_params_start(d);
    assert(csi_params_start(e) == start);
    lemma_param_end_agree(d, e, start);
    assert(e.subrange(start, n - 1) =~= d.subrange(start, n - 1));
}

/// Output that starts with bytes holding no ESC keeps them and filters the
/// rest: the filter goes through a plain prefix.
pub proof fn lemma_filter_plain_prefix(a: Seq<u8>, b: Seq<u8>)
    requires
        forall|i: int| 0 <= i < a.len() ==> a[i] != ESC,
    ensures
        filter_sequences(a + b) == a + filter_sequences(b),
    decreases a.len(),
{
    if a.len() == 0 {
        assert(a + b =~= b);
        assert(a + filter_sequences(b) =~= filter_sequences(b));
    } else {
        let x = a + b;
        assert(x[0] == a[0]);
        assert(escape_filter_len(x) is None);
        let rest = a.skip(1);
        assert forall|i: int| 0 <= i < rest.len() implies rest[i] != ESC by {
            assert(rest[i] == a[i + 1]);
        }
        assert(x.skip(1) =~= rest + b);
        lemma_filter_plain_prefix(rest, b);
        assert(seq![a[0]] + (rest + filter_sequences(b)) =~= a + filter_sequences(b));
    }
}

/// `x` is `y` with some bytes left out (the rest kept, in order).
pub open spec fn is_subsequence(x: Seq<u8>, y: Seq<u8>) -> bool
    decreases y.len(),
{
    if x.len() == 0 {
        true
    } else if y.len() == 0 {
        false
    } else if x[0] == y[0] && is_subsequence(x.drop_first(), y.drop_first()) {
        true
    } else {
        is_subsequence(x, y.drop_first())
    }
}

proof fn lemma_subsequence_of_suffix(x: Seq<u8>, y: Seq<u8>, k: int)
    requires
        0 <= k <= y.len(),
        is_subsequence(x, y.skip(k)),
    ensures
        is_subsequence(x, y),
    decreases k,
{
    if k == 0 {
        assert(y.skip(0) =~= y);
    } else {
        assert(y.drop_first().skip(k - 1) =~= y.skip(k));
        lemma_subsequence_of_suffix(x, y.drop_first(), k - 1);
    }
}

/// The filter only leaves bytes out: its output is a subsequence of its
/// input.
pub proof fn lemma_filter_subsequence(d: Seq<u8>)
    ensures
        is_subsequence(filter_sequences(d), d),
    decreases d.len(),
{
    if d.len() > 0 {
        if escape_filter_len(d) is Some && 0 < escape_filter_len(d)->0 <= d.len() {
            let n = escape_filter_len(d)->0;
            lemma_filter_subsequence(d.skip(n));
            lemma_subsequence_of_suffix(filter_sequences(d), d, n);
        } else {
            lemma_filter_subsequence(d.skip(1));
            let x = filter_sequences(d);
            assert(x == seq![d[0]] + filter_sequences(d.skip(1)));
            assert(x.drop_first() =~= filter_sequences(d.skip(1)));
            assert(d.drop_first() =~= d.skip(1));
        }
    }
}

proof fn lemma_param_end_exact(d: Seq<u8>, i: int, e: int)
    requires
        0 <= i <= e < d.len(),
        forall|k: int| i <= k < e ==> is_param_byte(#[trigger] d[k]),
        !is_param_byte(d[e]),
    ensures
        param_end(d, i) == e,
    decreases e - i,
{
    if i < e {
        lemma_param_end_exact(d, i + 1, e);
    }
}

/// A DEC private mode set or reset (`ESC [ ? params h` or `ESC [ ? params
/// l`, params made of digits and `;`) one of whose `;`-separated fields is
/// 9001, 1004, 1049, 2004 or 25 is dropped whole, whichever of the two final
/// bytes it has: filtering output made of bytes without ESC followed by such
/// a sequence keeps those bytes and goes on after the sequence.
pub proof fn lemma_dec_mode_sequence_dropped(a: Seq<u8>, d: Seq<u8>, e: int, i: int, j: int)
    requires
        forall|k: int| 0 <= k < a.len() ==> a[k] != 0x1b,
        3 <= e < d.len(),
        d[0] == 0x1b,
        d[1] == 0x5b,
        d[2] == 0x3f,
        forall|k: int| 3 <= k < e ==> (0x30 <= #[trigger] d[k] <= 0x39 || d[k] == 0x3b),
        d[e] == 0x68 || d[e] == 0x6c,
        3 <= i <= j <= e,
        i == 3 || d[i - 1] == 0x3b,
        j == e || d[j] == 0x3b,
        forall|k: int| i <= k < j ==> #[trigger] d[k] != 0x3b,
        ({
            let f = d.subrange(i, j);
            ||| f == seq![0x39u8, 0x30u8, 0x30u8, 0x31u8]
            ||| f == seq![0x31u8, 0x30u8, 0x30u8, 0x34u8]
            ||| f == seq![0x31u8, 0x30u8, 0x34u8, 0x39u8]
            ||| f == seq![0x32u8, 0x30u8, 0x30u8, 0x34u8]
            ||| f == seq![0x32u8, 0x35u8]
        }),
    ensures
        escape_filter_len(d) == Some(e + 1),
        filter_sequences(a + d) == a + filter_sequences(d.skip(e + 1)),
{
    assert forall|k: int| 3 <= k < e implies is_param_byte(#[trigger] d[k]) by {}
    lemma_param_end_exact(d, 3, e);
    let params = d.subrange(3, e);
    assert(field_at(params, i - 3, j - 3)) by {
        if i > 3 {
            assert(params[i - 4] == d[i - 1]);
        }
        if j < e {
            assert(params[j - 3] == d[j]);
        }
        assert forall|k: int| i - 3 <= k < j - 3 implies params[k] != 0x3b by {
            assert(params[k] == d[k + 3]);
        }
    }
    assert(params.subrange(i - 3, j - 3) =~= d.subrange(i, j));
    assert(is_filtered_mode(params.subrange(i - 3, j - 3)));
    assert(has_filtered_mode(params));
    assert(csi_filter_len(d) == Some(e + 1));
    assert(escape_filter_len(d) == Some(e + 1));
    lemma_filter_plain_prefix(a, d);
}

/// Whether `data[lo..hi]` is one of the filtered DEC private modes.
fn is_filtered_mode_at(data: &[u8], lo: usize, hi: usize) -> (r: bool)
    requires
        lo <= hi <= data@.len(),
    ensures
        r == is_filtered_mode(data@.subrange(lo as int, hi as int)),
{
    let ghost f = data@.subrange(lo as int, hi as int);
    proof {
        let m1 = seq![0x39u8, 0x30u8, 0x30u8, 0x31u8];
        let m2 = seq![0x31u8, 0x30u8, 0x30u8, 0x34u8];
        let m3 = seq![0x31u8, 0x30u8, 0x34u8, 0x39u8];
        let m4 = seq![0x32u8, 0x30u8, 0x30u8, 0x34u8];
        let m5 = seq![0x32u8, 0x35u8];
        assert(m1.len() == 4 && m1[0] == 0x39 && m1[1] == 0x30 && m1[2] == 0x30 && m1[3] == 0x31);
        assert(m2.len() == 4 && m2[0] == 0x31 && m2[1] == 0x30 && m2[2] == 0x30 && m2[3] == 0x34);
        assert(m3.len() == 4 && m3[0] == 0x31 && m3[1] == 0x30 && m3[2] == 0x34 && m3[3] == 0x39);
        assert(m4.len() == 4 && m4[0] == 0x32 && m4[1] == 0x30 && m4[2] == 0x30 && m4[3] == 0x34);
        assert(m5.len() == 2 && m5[0] == 0x32 && m5[1] == 0x35);
    }
    if hi - lo == 4 {
        let a = data[lo];
        let b = data[lo + 1];
        let c = data[lo + 2];
        let e = data[lo + 3];
        assert(f[0] == a && f[1] == b && f[2] == c && f[3] == e);
        let r = (a == 0x39 && b == 0x30 && c == 0x30 && e == 0x31) || (a == 0x31 && b == 0x30 && c
            == 0x30 && e == 0x34) || (a == 0x31 && b == 0x30 && c == 0x34 && e == 0x39) || (a
            == 0x32 && b == 0x30 && c == 0x30 && e == 0x34);
        if r {
            if a == 0x39 {
                assert(f =~= seq![0x39u8, 0x30u8, 0x30u8, 0x31u8]);
            } else if c == 0x34 {
                assert(f =~= seq![0x31u8, 0x30u8, 0x34u8, 0x39u8]);
            } else if a == 0x31 {
                assert(f =~= seq![0x31u8, 0x30u8, 0x30u8, 0x34u8]);
            } else {
                assert(f =~= seq![0x32u8, 0x30u8, 0x30u8, 0x34u8]);
            }
        }
        r
    } else if hi - lo == 2 {
        let a = data[lo];
        let b = data[lo + 1];
        assert(f[0] == a && f[1] == b);
        if a == 0x32 && b == 0x35 {
            assert(f =~= seq![0x32u8, 0x35u8]);
        }
        a == 0x32 && b == 0x35
    } else {
        false
    }
}

/// Whether one of the `;`-separated fields of `data[lo..hi]` is a filtered
/// DEC private mode.
fn has_filtered_mode_at(data: &[u8], lo: usize, hi: usize) -> (r: bool)
    requires
        lo <= hi <= data@.len(),
    ensures
        r == has_filtered_mode(data@.subrange(lo as int, hi as int)),
{
    let ghost p = data@.subrange(lo as int, hi as int);
    let mut pos: usize = lo;
    loop
        invariant
            lo <= pos <= hi <= data@.len(),
            p == data@.subrange(lo as int, hi as int),
            pos == lo || p[pos - lo - 1] == 0x3b,
            forall|i: int, j: int|
                #![trigger field_at(p, i, j)]
                field_at(p, i, j) && i < pos - lo ==> !is_filtered_mode(p.subrange(i, j)),
        decreases hi - pos,
    {
        let mut end: usize = pos;
        while end < hi && data[end] != 0x3b
            invariant
                pos <= end <= hi <= data@.len(),
                forall|k: int| pos <= k < end ==> data@[k] != 0x3b,
            decreases hi - end,
        {
            end = end + 1;
        }
        let ghost i0 = pos - lo;
        let ghost j0 = end - lo;
        assert(field_at(p, i0, j0));
        assert(p.subrange(i0, j0) =~= data@.subrange(pos as int, end as int));
        if is_filtered_mode_at(data, pos, end) {
            return true;
        }
        if end == hi {
            assert forall|i: int, j: int| #[trigger] field_at(p, i, j) implies !is_filtered_mode(
                p.subrange(i, j),
            ) by {
                if i > i0 {
                    assert(p[i - 1] == 0x3b);
                    assert(data@[lo + i - 1] == 0x3b);
                } else if i == i0 {
                    if j < j0 {
                        assert(p[j] == 0x3b);
                        assert(data@[lo + j] == 0x3b);
                    }
                }
            }
            return false;
        }
        assert forall|i: int, j: int|
            #[trigger] field_at(p, i, j) && i < end + 1 - lo implies !is_filtered_mode(
            p.subrange(i, j),
        ) by {
            if i > i0 {
                assert(p[i - 1] == 0x3b);
                assert(data@[lo + i - 1] == 0x3b);
            } else if i == i0 {
                if j < j0 {
                    assert(p[j] == 0x3b);
                    assert(data@[lo + j] == 0x3b);
                } else if j > j0 {
                    assert(p[j0] == 0x3b);
                }
            }
        }
        pos = end + 1;
    }
}

/// Decides whether the CSI sequence (`ESC [ ...`) at the start of `data` is
/// dropped, and if so how long it is.
pub fn try_filter_csi(data: &[u8]) -> (r: Option<usize>)
    ensures
        as_len(r) == csi_filter_len(data@),
{
    if data.len() < 3 {
        return None;
    }
    let mut i: usize = 2;
    let has_question = data[i] == 0x3f;
    let has_gt = data[i] == 0x3e;
    let has_eq = data[i] == 0x3d;
    if has_question || has_gt || has_eq {
        i = i + 1;
    }
    let start = i;
    proof {
        lemma_param_end_bounds(data@, start as int);
    }
    while i < data.len() && ((0x30 <= data[i] && data[i] <= 0x39) || data[i] == 0x3b)
        invariant
            start <= i <= data@.len(),
            param_end(data@, start as int) == param_end(data@, i as int),
        decreases data@.len() - i,
    {
        i = i + 1;
    }
    if i >= data.len() {
        return None;
    }
    let final_byte = data[i];
    if final_byte < 0x40 || final_byte > 0x7e {
        return None;
    }
    let seq_len = i + 1;
    let ghost params = data@.subrange(start as int, i as int);
    proof {
        let two = seq![0x32u8];
        let three = seq![0x33u8];
        let home = seq![0x31u8, 0x3bu8, 0x31u8];
        assert(two.len() == 1 && two[0] == 0x32);
        assert(three.len() == 1 && three[0] == 0x33);
        assert(home.len() == 3 && home[0] == 0x31 && home[1] == 0x3b && home[2] == 0x31);
    }
    if has_question {
        if final_byte == 0x68 || final_byte == 0x6c {
            if has_filtered_mode_at(data, start, i) {
                return Some(seq_len);
            }
        }
    } else if has_gt {
        return Some(seq_len);
    } else if has_eq {
        return Some(seq_len);
    } else {
        let n = i - start;
        if final_byte == 0x4a {
            if n == 0 || (n == 1 && (data[start] == 0x32 || data[start] == 0x33)) {
                proof {
                    if n == 1 {
                        assert(params =~= seq![data@[start as int]]);
                    }
                }
                return Some(seq_len);
            }
            proof {
                if n == 1 {
                    assert(params[0] == data@[start as int]);
                }
            }
        } else if final_byte == 0x48 {
            if n == 0 || (n == 3 && data[start] == 0x31 && data[start + 1] == 0x3b && data[start
                + 2] == 0x31) {
                proof {
                    if n == 3 {
                        assert(params =~= seq![0x31u8, 0x3bu8, 0x31u8]);
                    }
                }
                return Some(seq_len);
            }
            proof {
                if n == 3 {
                    assert(params[0] == data@[start as int]);
                    assert(params[1] == data@[start + 1]);
                    assert(params[2] == data@[start + 2]);
                }
            }
        }
    }
    None
}

/// Decides whether the OSC sequence (`ESC ] ...`) at the start of `data` is
/// terminated (by BEL or ST), and if so how long it is.
pub fn try_filter_osc(data: &[u8]) -> (r: Option<usize>)
    ensures
        as_len(r) == osc_filter_len(data@),
{
    if data.len() < 3 {
        return None;
    }
    let mut i: usize = 2;
    while i < data.len()
        invariant
            2 <= i <= data@.len(),
            osc_terminator(data@, 2) == osc_terminator(data@, i as int),
        decreases data@.len() - i,
    {
        if data[i] == BEL {
            return Some(i + 1);
        }
        if data[i] == ESC && i + 1 < data.len() && data[i + 1] == 0x5c {
            return Some(i + 2);
        }
        i = i + 1;
    }
    None
}

/// Decides whether the escape sequence at the start of `data` is one of the
/// dropped ones, and if so how long it is.
pub fn try_filter_escape_sequence(data: &[u8]) -> (r: Option<usize>)
    ensures
        as_len(r) == escape_filter_len(data@),
{
    if data.len() < 2 || data[0] != ESC {
        return None;
    }
    if data[1] == 0x5b {
        try_filter_csi(data)
    } else if data[1] == 0x5d {
        try_filter_osc(data)
    } else {
        None
    }
}

/// Removes the escape sequences that break a Linux terminal when Windows
/// Terminal or PowerShell output is replayed on it.
pub fn filter_terminal_sequences(data: &[u8]) -> (r: Vec<u8>)
    ensures
        r@ == filter_sequences(data@),
{
    let mut result: Vec<u8> = Vec::new();
    let mut i: usize = 0;
    assert(data@.skip(0) =~= data@);
    assert(result@ + filter_sequences(data@) =~= filter_sequences(data@));
    while i < data.len()
        invariant
            0 <= i <= data@.len(),
            filter_sequences(data@) == result@ + filter_sequences(data@.skip(i as int)),
        decreases data@.len() - i,
    {
        let ghost rest = data@.skip(i as int);
        if data[i] == ESC {
            let tail = &data[i..data.len()];
            assert(tail@ =~= rest);
            let found = try_filter_escape_sequence(tail);
            if let Some(n) = found {
                proof {
                    lemma_escape_filter_len_bounds(rest);
                    assert(rest.skip(n as int) =~= data@.skip(i + n));
                }
                i = i + n;
                continue;
            }
        }
        proof {
            lemma_escape_filter_len_bounds(rest);
            assert(rest.skip(1) =~= data@.skip(i + 1));
            assert(rest[0] == data@[i as int]);
        }
        result.push(data[i]);
        i = i + 1;
    }
    assert(data@.skip(i as int) =~= Seq::<u8>::empty());
    assert(result@ + Seq::<u8>::empty() =~= result@);
    result
}


/// A lowercase hexadecimal digit.
pub open spec fn hex_digit(n: u8) -> u8 {
    if n < 10 {
        (0x30 + n) as u8
    } else {
        (0x61 + n - 10) as u8
    }
}

/// A control byte other than newline, carriage return and tab.
pub open spec fn is_escaped_control(b: u8) -> bool {
    b == ESC || (b < 0x20 && b != 0x0a && b != 0x0d && b != 0x09)
}

/// How one byte of PTY output is shown: ESC as `\x1b`, other control
/// bytes (but newline, carriage return and tab) as `\xNN` in lowercase hex,
/// every other byte as itself.
pub open spec fn escape_byte(b: u8) -> Seq<u8> {
    if is_escaped_control(b) {
        seq![0x5cu8, 0x78u8, hex_digit(b / 16), hex_digit(b % 16)]
    } else {
        seq![b]
    }
}

/// `d` with each byte replaced by how it is shown.
pub open spec fn escaped(d: Seq<u8>) -> Seq<u8>
    decreases d.len(),
{
    if d.len() == 0 {
        Seq::empty()
    } else {
        escaped(d.drop_last()) + escape_byte(d.last())
    }
}

/// Shows the control bytes of PTY output as visible escapes.
pub fn escape_control_chars(data: &[u8]) -> (r: Vec<u8>)
    ensures
        r@ == escaped(data@),
{
    let mut result: Vec<u8> = Vec::new();
    for i in 0..data.len()
        invariant
            result@ == escaped(data@.take(i as int)),
    {
        let b = data[i];
        assert(data@.take(i + 1).drop_last() =~= data@.take(i as int));
        if b == ESC || (b < 0x20 && b != 0x0a && b != 0x0d && b != 0x09) {
            let hi: u8 = b / 16;
            let lo: u8 = b % 16;
            let h: u8 = if hi < 10 { 0x30 + hi } else { 0x61 + hi - 10 };
            let l: u8 = if lo < 10 { 0x30 + lo } else { 0x61 + lo - 10 };
            result.push(0x5c);
            result.push(0x78);
            result.push(h);
            result.push(l);
        } else {
            result.push(b);
        }
        assert(result@ =~= escaped(data@.take(i + 1)));
    }
    assert(data@.take(data@.len() as int) =~= data@);
    result
}

/// The only control bytes left in escaped output are newline, carriage
/// return and tab.
pub proof fn lemma_escaped_has_no_hidden_controls(d: Seq<u8>)
    ensures
        forall|k: int|
            0 <= k < escaped(d).len() ==> !is_escaped_control(#[trigger] escaped(d)[k]),
    decreases d.len(),
{
    if d.len() > 0 {
        lemma_escaped_has_no_hidden_controls(d.drop_last());
        let a = escaped(d.drop_last());
        let e = escape_byte(d.last());
        assert forall|k: int| 0 <= k < escaped(d).len() implies !is_escaped_control(
            #[trigger] escaped(d)[k],
        ) by {
            if k < a.len() {
                assert(escaped(d)[k] == a[k]);
            } else {
                assert(escaped(d)[k] == e[k - a.len()]);
            }
        }
    }
}

/// Escaping goes byte by byte: the escape of two pieces is the escape of
/// the first followed by that of the second.
pub proof fn lemma_escaped_concat(a: Seq<u8>, b: Seq<u8>)
    ensures
        escaped(a + b) == escaped(a) + escaped(b),
    decreases b.len(),
{
    if b.len() == 0 {
        assert(a + b =~= a);
        assert(escaped(a) + escaped(b) =~= escaped(a));
    } else {
        assert((a + b).drop_last() =~= a + b.drop_last());
        assert((a + b).last() == b.last());
        lemma_escaped_concat(a, b.drop_last());
        assert(escaped(a) + escaped(b.drop_last()) + escape_byte(b.last()) =~= escaped(a) + (
        escaped(b.drop_last()) + escape_byte(b.last())));
    }
}

/// The lowercase hex digit of a value below 16.
pub open spec fn lower_hex(v: int) -> u8 {
    if v < 10 {
        (0x30 + v) as u8
    } else {
        (0x61 + v - 10) as u8
    }
}

/// Escaping works byte by byte: a byte below 0x20 other than newline,
/// carriage return and tab is shown as the four bytes `\xNN` of its
/// lowercase hex value, and every other byte is kept as it is, whatever
/// surrounds it.
pub proof fn lemma_escape_each_byte(a: Seq<u8>, b: u8, c: Seq<u8>)
    ensures
        (b < 0x20 && b != 0x0a && b != 0x0d && b != 0x09) ==> escaped(a + seq![b] + c) == escaped(a)
            + seq![0x5cu8, 0x78u8, lower_hex((b / 16) as int), lower_hex((b % 16) as int)] + escaped(c),
        !(b < 0x20 && b != 0x0a && b != 0x0d && b != 0x09) ==> escaped(a + seq![b] + c)
            == escaped(a) + seq![b] + escaped(c),
{
    lemma_escaped_concat(a + seq![b], c);
    lemma_escaped_concat(a, seq![b]);
    let one = seq![b];
    assert(one.drop_last() =~= Seq::<u8>::empty());
    assert(one.last() == b);
    assert(escaped(Seq::<u8>::empty()) =~= Seq::<u8>::empty());
    assert(escaped(one) == escaped(one.drop_last()) + escape_byte(one.last()));
    assert(Seq::<u8>::empty() + escape_byte(b) =~= escape_byte(b));
    assert(escaped(one) =~= escape_byte(b));
}

/// Escaped output holds no raw byte below 0x20 but newline, carriage return
/// and tab.
pub proof fn lemma_escaped_no_raw_controls(d: Seq<u8>)
    ensures
        forall|k: int|
            0 <= k < escaped(d).len() ==> {
                let x = #[trigger] escaped(d)[k];
                x >= 0x20 || x == 0x0a || x == 0x0d || x == 0x09
            },
{
    lemma_escaped_has_no_hidden_controls(d);
}

/// How many bytes of `d` are shown as escapes.
pub open spec fn escaped_count(d: Seq<u8>) -> nat
    decreases d.len(),
{
    if d.len() == 0 {
        0
    } else if is_escaped_control(d.last()) {
        escaped_count(d.drop_last()) + 1
    } else {
        escaped_count(d.drop_last())
    }
}

/// Each escaped byte takes four bytes, every other byte one.
pub proof fn lemma_escaped_len_exact(d: Seq<u8>)
    ensures
        escaped(d).len() == d.len() + 3 * escaped_count(d),
    decreases d.len(),
{
    if d.len() > 0 {
        lemma_escaped_len_exact(d.drop_last());
    }
}

pub const CR: u8 = 0x0d;

pub const LF: u8 = 0x0a;

/// `d` with every line ending made CR LF: a CR LF pair is kept, a lone CR
/// and a lone LF each become CR LF.
pub open spec fn crlf(d: Seq<u8>) -> Seq<u8>
    decreases d.len(),
{
    if d.len() == 0 {
        Seq::empty()
    } else if d[0] == CR && d.len() > 1 && d[1] == LF {
        seq![CR, LF] + crlf(d.skip(2))
    } else if d[0] == CR || d[0] == LF {
        seq![CR, LF] + crlf(d.skip(1))
    } else {
        seq![d[0]] + crlf(d.skip(1))
    }
}

/// Converts CR and LF line endings to CR LF, as a Windows PTY expects.
pub fn convert_line_endings(data: &[u8]) -> (r: Vec<u8>)
    ensures
        r@ == crlf(data@),
{
    let mut result: Vec<u8> = Vec::new();
    let mut i: usize = 0;
    assert(data@.skip(0) =~= data@);
    assert(result@ + crlf(data@) =~= crlf(data@));
    while i < data.len()
        invariant
            0 <= i <= data@.len(),
            crlf(data@) == result@ + crlf(data@.skip(i as int)),
        decreases data@.len() - i,
    {
        let ghost rest = data@.skip(i as int);
        let b = data[i];
        assert(rest[0] == b);
        if b == CR {
            if i + 1 < data.len() && data[i + 1] == LF {
                assert(rest[1] == LF);
                assert(rest.skip(2) =~= data@.skip(i + 2));
                result.push(CR);
                result.push(LF);
                i = i + 2;
            } else {
                assert(rest.skip(1) =~= data@.skip(i + 1));
                result.push(CR);
                result.push(LF);
                i = i + 1;
            }
        } else if b == LF {
            assert(rest.skip(1) =~= data@.skip(i + 1));
            result.push(CR);
            result.push(LF);
            i = i + 1;
        } else {
            assert(rest.skip(1) =~= data@.skip(i + 1));
            result.push(b);
            i = i + 1;
        }
    }
    assert(data@.skip(i as int) =~= Seq::<u8>::empty());
    assert(result@ + Seq::<u8>::empty() =~= result@);
    result
}

proof fn lemma_crlf_after_pair(y: Seq<u8>)
    ensures
        crlf(seq![CR, LF] + y) == seq![CR, LF] + crlf(y),
{
    let x = seq![CR, LF] + y;
    assert(x[0] == CR && x[1] == LF);
    assert(x.skip(2) =~= y);
}

proof fn lemma_crlf_after_plain(b: u8, y: Seq<u8>)
    requires
        b != CR,
        b != LF,
    ensures
        crlf(seq![b] + y) == seq![b] + crlf(y),
{
    let x = seq![b] + y;
    assert(x[0] == b);
    assert(x.skip(1) =~= y);
}

/// Converting line endings twice gives the same bytes as converting once.
pub proof fn lemma_crlf_idempotent(d: Seq<u8>)
    ensures
        crlf(crlf(d)) == crlf(d),
    decreases d.len(),
{
    if d.len() > 0 {
        if d[0] == CR && d.len() > 1 && d[1] == LF {
            lemma_crlf_idempotent(d.skip(2));
            lemma_crlf_after_pair(crlf(d.skip(2)));
        } else if d[0] == CR || d[0] == LF {
            lemma_crlf_idempotent(d.skip(1));
            lemma_crlf_after_pair(crlf(d.skip(1)));
        } else {
            lemma_crlf_idempotent(d.skip(1));
            lemma_crlf_after_plain(d[0], crlf(d.skip(1)));
        }
    }
}


/// Every CR is followed by LF and every LF follows a CR.
pub open spec fn crlf_shaped(r: Seq<u8>) -> bool {
    &&& forall|i: int| 0 <= i < r.len() && #[trigger] r[i] == CR ==> i + 1 < r.len() && r[i + 1] == LF
    &&& forall|i: int| 0 <= i < r.len() && #[trigger] r[i] == LF ==> i > 0 && r[i - 1] == CR
}

/// `d` without its CR and LF bytes.
pub open spec fn without_eol(d: Seq<u8>) -> Seq<u8>
    decreases d.len(),
{
    if d.len() == 0 {
        Seq::empty()
    } else if d[0] == CR || d[0] == LF {
        without_eol(d.skip(1))
    } else {
        seq![d[0]] + without_eol(d.skip(1))
    }
}

proof fn lemma_without_eol_pair(y: Seq<u8>)
    ensures
        without_eol(seq![CR, LF] + y) == without_eol(y),
{
    let x = seq![CR, LF] + y;
    assert(x[0] == CR);
    assert(without_eol(x) == without_eol(x.skip(1)));
    assert(x.skip(1)[0] == LF);
    assert(without_eol(x.skip(1)) == without_eol(x.skip(1).skip(1)));
    assert(x.skip(1).skip(1) =~= y);
}

proof fn lemma_without_eol_plain(b: u8, y: Seq<u8>)
    requires
        b != CR,
        b != LF,
    ensures
        without_eol(seq![b] + y) == seq![b] + without_eol(y),
{
    let x = seq![b] + y;
    assert(x[0] == b);
    assert(x.skip(1) =~= y);
}

/// Line-ending conversion leaves every CR followed by LF and every LF
/// after a CR, never starts with LF, and keeps every other byte in order.
pub proof fn lemma_crlf_shape(d: Seq<u8>)
    ensures
        crlf_shaped(crlf(d)),
        crlf(d).len() > 0 ==> crlf(d)[0] != LF,
        without_eol(crlf(d)) == without_eol(d),
    decreases d.len(),
{
    if d.len() > 0 {
        let rest = if d[0] == CR && d.len() > 1 && d[1] == LF {
            d.skip(2)
        } else {
            d.skip(1)
        };
        lemma_crlf_shape(rest);
        let y = crlf(rest);
        let pre: Seq<u8> = if d[0] == CR || d[0] == LF {
            seq![CR, LF]
        } else {
            seq![d[0]]
        };
        let x = crlf(d);
        assert(x =~= pre + y);
        assert forall|i: int| 0 <= i < x.len() && #[trigger] x[i] == CR implies i + 1 < x.len()
            && x[i + 1] == LF by {
            if i >= pre.len() {
                assert(x[i] == y[i - pre.len()]);
                assert(x[i + 1] == y[i + 1 - pre.len()]);
            }
        }
        assert forall|i: int| 0 <= i < x.len() && #[trigger] x[i] == LF implies i > 0 && x[i
            - 1] == CR by {
            if i >= pre.len() {
                assert(x[i] == y[i - pre.len()]);
                if i == pre.len() {
                    assert(y[0] == LF);
                } else {
                    assert(x[i - 1] == y[i - 1 - pre.len()]);
                }
            }
        }
        if d[0] == CR || d[0] == LF {
            lemma_without_eol_pair(y);
            assert(without_eol(d) == without_eol(d.skip(1)));
            if d[0] == CR && d.len() > 1 && d[1] == LF {
                assert(d.skip(1)[0] == LF);
                assert(without_eol(d.skip(1)) == without_eol(d.skip(1).skip(1)));
                assert(d.skip(1).skip(1) =~= d.skip(2));
            }
        } else {
            lemma_without_eol_plain(d[0], y);
        }
    }
}

} // verus!
