//! The device table printed by `osh-admin list`.

use vstd::prelude::*;
use vstd::string::StringExecFns;
use vstd::utf8::{encode_utf8, decode_utf8, is_char_boundary, encode_utf8_decode_utf8};
use crate::cli_protocol::{Device, DevicesConfig, DeviceStatus};
use crate::text::{
    chars_of, text_lt, text_less, decimal, push_decimal, pad_right, push_padded, owned,
};

verus! {

broadcast use vstd::string::group_string_axioms;

/// The length of `s` in UTF-8 bytes (what `str::len` counts).
pub open spec fn utf8_len(s: Seq<char>) -> int {
    encode_utf8(s).len() as int
}

/// The text made of the first `n` UTF-8 bytes of `s`.
pub open spec fn byte_prefix(s: Seq<char>, n: int) -> Seq<char> {
    decode_utf8(encode_utf8(s).subrange(0, n))
}

/// `s` cut to its first `n` bytes when it is longer than that.
pub open spec fn shorten(s: Seq<char>, n: int) -> Seq<char> {
    if utf8_len(s) > n {
        byte_prefix(s, n)
    } else {
        s
    }
}

/// Cutting `s` to `at` bytes when it is longer than `limit` bytes falls on
/// a character boundary (slicing a `str` elsewhere panics).
pub open spec fn cuts_cleanly(s: Seq<char>, limit: int, at: int) -> bool {
    &&& utf8_len(s) <= usize::MAX
    &&& utf8_len(s) > limit ==> is_char_boundary(encode_utf8(s), at)
}

/// A device whose row can be printed: its id, name and last-seen text are
/// cut on character boundaries.
pub open spec fn listable(d: Device) -> bool {
    &&& cuts_cleanly(d.device_id@, 36, 36)
    &&& cuts_cleanly(d.device_name@, 10, 7)
    &&& cuts_cleanly(d.last_seen@, 19, 19)
}

pub open spec fn alias_column(a: Option<String>) -> Seq<char> {
    match a {
        Some(s) => s@,
        None => "-"@,
    }
}

pub open spec fn name_column(name: Seq<char>) -> Seq<char> {
    if utf8_len(name) > 10 {
        byte_prefix(name, 7) + "..."@
    } else {
        name
    }
}

pub open spec fn status_column(s: DeviceStatus) -> Seq<char> {
    match s {
        DeviceStatus::Pending => "⏳ pending"@,
        DeviceStatus::Approved => "✓ approved"@,
        DeviceStatus::Rejected => "✗ rejected"@,
    }
}

/// A name of at most 10 bytes is shown as it is; a longer one is cut to
/// its first 7 bytes followed by "...".
pub proof fn lemma_name_column(name: Seq<char>)
    ensures
        utf8_len(name) <= 10 ==> name_column(name) == name,
        utf8_len(name) > 10 ==> name_column(name) == byte_prefix(name, 7) + "..."@,
{
}

/// One table row.
pub open spec fn row_text(d: Device) -> Seq<char> {
    pad_right(shorten(d.device_id@, 36), 36) + "  "@ + pad_right(alias_column(d.alias), 12) + "  "@
        + pad_right(name_column(d.device_name@), 10) + "  "@ + pad_right(d.platform@, 10) + "  "@
        + pad_right(status_column(d.status), 10) + "  "@ + shorten(d.last_seen@, 19) + "\n"@
}

pub open spec fn header_text() -> Seq<char> {
    pad_right("Device ID"@, 36) + "  "@ + pad_right("Alias"@, 12) + "  "@ + pad_right("Name"@, 10)
        + "  "@ + pad_right("Platform"@, 10) + "  "@ + pad_right("Status"@, 10) + "  "@
        + "Last Seen"@ + "\n"@
}

/// `n` dashes.
pub open spec fn dashes(n: int) -> Seq<char>
    decreases n,
{
    if n <= 0 {
        Seq::empty()
    } else {
        dashes(n - 1) + seq!['-']
    }
}

/// The rows of the devices at `order`, in that order.
pub open spec fn rows_text(devs: Seq<Device>, order: Seq<usize>) -> Seq<char>
    decreases order.len(),
{
    if order.len() == 0 {
        Seq::empty()
    } else {
        rows_text(devs, order.drop_last()) + row_text(devs[order.last() as int])
    }
}

/// The whole listing, with the rows in the order `order`.
pub open spec fn listing_text(config: DevicesConfig, order: Seq<usize>) -> Seq<char> {
    let devs = config.devices@;
    "Max devices: "@ + decimal(config.max_devices as nat) + "\n"@ + "Total devices: "@ + decimal(
        devs.len(),
    ) + "\n"@ + "\n"@ + if devs.len() == 0 {
        "No devices registered.\n"@
    } else {
        header_text() + dashes(100) + "\n"@ + rows_text(devs, order)
    }
}

/// Device `i` is listed before device `j`: pending devices come first, then
/// by creation time text, and devices that tie keep their order in the file.
pub open spec fn listed_before(devs: Seq<Device>, i: int, j: int) -> bool {
    let a = devs[i];
    let b = devs[j];
    let pa = a.status == DeviceStatus::Pending;
    let pb = b.status == DeviceStatus::Pending;
    if pa != pb {
        pa
    } else if a.created_at@ != b.created_at@ {
        text_lt(a.created_at@, b.created_at@)
    } else {
        i < j
    }
}

/// `i` occurs in `order`.
pub open spec fn appears_in(order: Seq<usize>, i: int) -> bool {
    exists|k: int| 0 <= k < order.len() && order[k] == i
}

/// `order` lists every device once, sorted by `listed_before`.
pub open spec fn is_listing_order(devs: Seq<Device>, order: Seq<usize>) -> bool {
    &&& order.len() == devs.len()
    &&& forall|k: int| 0 <= k < order.len() ==> order[k] < devs.len()
    &&& forall|i: int| 0 <= i < devs.len() ==> #[trigger] appears_in(order, i)
    &&& forall|a: int, b: int|
        0 <= a < b < order.len() ==> listed_before(devs, order[a] as int, order[b] as int)
}

proof fn lemma_text_lt_irreflexive(a: Seq<char>)
    ensures
        !text_lt(a, a),
    decreases a.len(),
{
    if a.len() > 0 {
        lemma_text_lt_irreflexive(a.skip(1));
    }
}

proof fn lemma_text_lt_transitive(a: Seq<char>, b: Seq<char>, c: Seq<char>)
    requires
        text_lt(a, b),
        text_lt(b, c),
    ensures
        text_lt(a, c),
    decreases a.len(),
{
    if a.len() > 0 && b.len() > 0 && c.len() > 0 && a[0] == b[0] && b[0] == c[0] {
        lemma_text_lt_transitive(a.skip(1), b.skip(1), c.skip(1));
    }
}

proof fn lemma_text_lt_total(a: Seq<char>, b: Seq<char>)
    requires
        a != b,
    ensures
        text_lt(a, b) || text_lt(b, a),
    decreases a.len(),
{
    if a.len() > 0 && b.len() > 0 && a[0] == b[0] {
        if a.skip(1) == b.skip(1) {
            assert(a =~= seq![a[0]] + a.skip(1));
            assert(b =~= seq![b[0]] + b.skip(1));
        }
        lemma_text_lt_total(a.skip(1), b.skip(1));
    } else if a.len() == 0 && b.len() == 0 {
        assert(a =~= b);
    }
}

proof fn lemma_text_lt_asymmetric(a: Seq<char>, b: Seq<char>)
    requires
        text_lt(a, b),
    ensures
        !text_lt(b, a),
{
    if text_lt(b, a) {
        lemma_text_lt_transitive(a, b, a);
        lemma_text_lt_irreflexive(a);
    }
}

/// `listed_before` is a strict total order on the devices.
pub proof fn lemma_listed_before_order(devs: Seq<Device>, i: int, j: int, k: int)
    ensures
        !listed_before(devs, i, i),
        listed_before(devs, i, j) && listed_before(devs, j, k) ==> listed_before(devs, i, k),
        i != j ==> listed_before(devs, i, j) || listed_before(devs, j, i),
        listed_before(devs, i, j) ==> !listed_before(devs, j, i),
{
    let (a, b, c) = (devs[i].created_at@, devs[j].created_at@, devs[k].created_at@);
    lemma_text_lt_irreflexive(a);
    if a != b {
        lemma_text_lt_total(a, b);
        if text_lt(a, b) {
            lemma_text_lt_asymmetric(a, b);
        } else {
            lemma_text_lt_asymmetric(b, a);
        }
    }
    if listed_before(devs, i, j) && listed_before(devs, j, k) {
        let pa = devs[i].status == DeviceStatus::Pending;
        let pb = devs[j].status == DeviceStatus::Pending;
        let pc = devs[k].status == DeviceStatus::Pending;
        if pa == pb && pb == pc {
            if a != c {
                if a != b && b != c {
                    lemma_text_lt_transitive(a, b, c);
                }
            } else {
                if a != b {
                    // a < b and b < c == a cannot both hold
                    lemma_text_lt_asymmetric(a, b);
                }
            }
        }
    }
}

proof fn lemma_listing_orders_agree_at(devs: Seq<Device>, o1: Seq<usize>, o2: Seq<usize>, k: int)
    requires
        is_listing_order(devs, o1),
        is_listing_order(devs, o2),
        0 <= k < o1.len(),
        forall|j: int| 0 <= j < k ==> o1[j] == o2[j],
    ensures
        o1[k] == o2[k],
{
    let x = o1[k] as int;
    let y = o2[k] as int;
    if x != y {
        assert(appears_in(o2, x));
        assert(appears_in(o1, y));
        let m = choose|m: int| 0 <= m < o2.len() && o2[m] == x;
        let m2 = choose|m: int| 0 <= m < o1.len() && o1[m] == y;
        if m < k {
            assert(o1[m] == x);
            lemma_listed_before_order(devs, x, x, x);
        }
        if m2 < k {
            assert(o2[m2] == y);
            lemma_listed_before_order(devs, y, y, y);
        }
        assert(listed_before(devs, y, x));
        assert(listed_before(devs, x, y));
        lemma_listed_before_order(devs, x, y, x);
    }
}

proof fn lemma_listing_orders_agree_below(devs: Seq<Device>, o1: Seq<usize>, o2: Seq<usize>, k: int)
    requires
        is_listing_order(devs, o1),
        is_listing_order(devs, o2),
        0 <= k <= o1.len(),
    ensures
        forall|j: int| 0 <= j < k ==> o1[j] == o2[j],
    decreases k,
{
    if k > 0 {
        lemma_listing_orders_agree_below(devs, o1, o2, k - 1);
        lemma_listing_orders_agree_at(devs, o1, o2, k - 1);
    }
}

/// There is only one listing order: the table's row order is determined by
/// the device list.
pub proof fn lemma_listing_order_unique(devs: Seq<Device>, o1: Seq<usize>, o2: Seq<usize>)
    requires
        is_listing_order(devs, o1),
        is_listing_order(devs, o2),
    ensures
        o1 == o2,
{
    lemma_listing_orders_agree_below(devs, o1, o2, o1.len() as int);
    assert(o1 =~= o2);
}

fn listed_before_exec(devs: &Vec<Device>, created: &Vec<Vec<char>>, i: usize, j: usize) -> (r:
    bool)
    requires
        i < devs@.len(),
        j < devs@.len(),
        created@.len() == devs@.len(),
        forall|k: int| 0 <= k < devs@.len() ==> #[trigger] created@[k]@ == devs@[k].created_at@,
    ensures
        r == listed_before(devs@, i as int, j as int),
{
    let pa = devs[i].status == DeviceStatus::Pending;
    let pb = devs[j].status == DeviceStatus::Pending;
    if pa != pb {
        pa
    } else {
        let ca = &created[i];
        let cb = &created[j];
        assert(ca@ == devs@[i as int].created_at@);
        assert(cb@ == devs@[j as int].created_at@);
        if text_less(ca, cb) {
            proof {
                lemma_text_lt_irreflexive(ca@);
            }
            true
        } else if text_less(cb, ca) {
            false
        } else {
            proof {
                if ca@ != cb@ {
                    lemma_text_lt_total(ca@, cb@);
                }
            }
            i < j
        }
    }
}

/// The order in which `osh-admin list` prints the devices: pending first,
/// then by creation time, ties in file order.
pub fn listing_order(devs: &Vec<Device>) -> (order: Vec<usize>)
    ensures
        is_listing_order(devs@, order@),
{
    let n = devs.len();
    let mut created: Vec<Vec<char>> = Vec::new();
    for i in 0..n
        invariant
            n == devs@.len(),
            created@.len() == i,
            forall|k: int| 0 <= k < i ==> #[trigger] created@[k]@ == devs@[k].created_at@,
    {
        created.push(chars_of(devs[i].created_at.as_str()));
    }
    let mut order: Vec<usize> = Vec::new();
    for i in 0..n
        invariant
            n == devs@.len(),
            created@.len() == n,
            forall|k: int| 0 <= k < n ==> #[trigger] created@[k]@ == devs@[k].created_at@,
            order@.len() == i,
            forall|k: int| 0 <= k < order@.len() ==> order@[k] < i,
            forall|x: int| 0 <= x < i ==> #[trigger] appears_in(order@, x),
            forall|a: int, b: int|
                0 <= a < b < order@.len() ==> listed_before(devs@, order@[a] as int, order@[b] as int),
    {
        let mut k: usize = 0;
        while k < order.len() && !listed_before_exec(devs, &created, i, order[k])
            invariant
                0 <= k <= order@.len(),
                i < n,
                n == devs@.len(),
                created@.len() == n,
                forall|m: int| 0 <= m < n ==> #[trigger] created@[m]@ == devs@[m].created_at@,
                forall|m: int| 0 <= m < order@.len() ==> order@[m] < i,
                forall|m: int| 0 <= m < k ==> !listed_before(devs@, i as int, order@[m] as int),
            decreases order@.len() - k,
        {
            k = k + 1;
        }
        let ghost old_order = order@;
        proof {
            assert forall|m: int| 0 <= m < k implies listed_before(
                devs@,
                #[trigger] old_order[m] as int,
                i as int,
            ) by {
                lemma_listed_before_order(devs@, i as int, old_order[m] as int, i as int);
            }
            if k < old_order.len() {
                assert forall|m: int| k <= m < old_order.len() implies listed_before(
                    devs@,
                    i as int,
                    #[trigger] old_order[m] as int,
                ) by {
                    if m > k {
                        lemma_listed_before_order(
                            devs@,
                            i as int,
                            old_order[k as int] as int,
                            old_order[m] as int,
                        );
                    }
                }
            }
        }
        order.insert(k, i);
        proof {
            let new_order = order@;
            assert(new_order =~= old_order.insert(k as int, i));
            assert forall|x: int| 0 <= x < i + 1 implies #[trigger] appears_in(new_order, x) by {
                if x == i {
                    assert(new_order[k as int] == i);
                } else {
                    assert(appears_in(old_order, x));
                    let m = choose|m: int| 0 <= m < old_order.len() && old_order[m] == x;
                    if m < k {
                        assert(new_order[m] == x);
                    } else {
                        assert(new_order[m + 1] == x);
                    }
                }
            }
            assert forall|a: int, b: int| 0 <= a < b < new_order.len() implies listed_before(
                devs@,
                new_order[a] as int,
                new_order[b] as int,
            ) by {
                if b < k {
                    assert(new_order[a] == old_order[a] && new_order[b] == old_order[b]);
                } else if b == k {
                    assert(new_order[a] == old_order[a]);
                } else if a < k {
                    assert(new_order[a] == old_order[a] && new_order[b] == old_order[b - 1]);
                    lemma_listed_before_order(
                        devs@,
                        old_order[a] as int,
                        i as int,
                        old_order[b - 1] as int,
                    );
                } else if a == k {
                    assert(new_order[b] == old_order[b - 1]);
                } else {
                    assert(new_order[a] == old_order[a - 1] && new_order[b] == old_order[b - 1]);
                }
            }
        }
    }
    order
}

/// Cuts `s` to `at` bytes when it is longer than `limit` bytes.
fn cut(s: &str, limit: usize, at: usize) -> (r: &str)
    requires
        cuts_cleanly(s@, limit as int, at as int),
        at <= limit,
    ensures
        utf8_len(s@) > limit ==> r@ == byte_prefix(s@, at as int),
        utf8_len(s@) <= limit ==> r@ == s@,
{
    if s.len() > limit {
        let (a, _) = s.split_at(at);
        proof {
            encode_utf8_decode_utf8(a@);
        }
        a
    } else {
        s
    }
}

proof fn lemma_add_assoc(a: Seq<char>, b: Seq<char>, c: Seq<char>)
    ensures
        (a + b) + c == a + (b + c),
{
    assert((a + b) + c =~= a + (b + c));
}

fn name_text(name: &str) -> (r: String)
    requires
        cuts_cleanly(name@, 10, 7),
    ensures
        r@ == name_column(name@),
{
    proof {
        reveal_strlit("...");
    }
    if name.len() > 10 {
        let mut s = owned(cut(name, 10, 7));
        s.append("...");
        s
    } else {
        owned(name)
    }
}

fn status_text(status: DeviceStatus) -> (r: &'static str)
    ensures
        r@ == status_column(status),
{
    match status {
        DeviceStatus::Pending => "⏳ pending",
        DeviceStatus::Approved => "✓ approved",
        DeviceStatus::Rejected => "✗ rejected",
    }
}

fn push_row(out: &mut String, d: &Device)
    requires
        listable(*d),
    ensures
        final(out)@ == old(out)@ + row_text(*d),
{
    proof {
        reveal_strlit("  ");
        reveal_strlit("-");
        reveal_strlit("\n");
    }
    let ghost start = out@;
    let ghost sep = "  "@;
    let ghost p1 = pad_right(shorten(d.device_id@, 36), 36);
    let ghost p2 = pad_right(alias_column(d.alias), 12);
    let ghost p3 = pad_right(name_column(d.device_name@), 10);
    let ghost p4 = pad_right(d.platform@, 10);
    let ghost p5 = pad_right(status_column(d.status), 10);
    let ghost p6 = shorten(d.last_seen@, 19);
    push_padded(out, cut(d.device_id.as_str(), 36, 36), 36);
    let ghost acc = p1;
    out.append("  ");
    proof {
        lemma_add_assoc(start, acc, sep);
        acc = acc + sep;
    }
    match &d.alias {
        Some(a) => push_padded(out, a.as_str(), 12),
        None => push_padded(out, "-", 12),
    }
    proof {
        lemma_add_assoc(start, acc, p2);
        acc = acc + p2;
    }
    out.append("  ");
    proof {
        lemma_add_assoc(start, acc, sep);
        acc = acc + sep;
    }
    let name_col = name_text(d.device_name.as_str());
    push_padded(out, name_col.as_str(), 10);
    proof {
        lemma_add_assoc(start, acc, p3);
        acc = acc + p3;
    }
    out.append("  ");
    proof {
        lemma_add_assoc(start, acc, sep);
        acc = acc + sep;
    }
    push_padded(out, d.platform.as_str(), 10);
    proof {
        lemma_add_assoc(start, acc, p4);
        acc = acc + p4;
    }
    out.append("  ");
    proof {
        lemma_add_assoc(start, acc, sep);
        acc = acc + sep;
    }
    push_padded(out, status_text(d.status), 10);
    proof {
        lemma_add_assoc(start, acc, p5);
        acc = acc + p5;
    }
    out.append("  ");
    proof {
        lemma_add_assoc(start, acc, sep);
        acc = acc + sep;
    }
    out.append(cut(d.last_seen.as_str(), 19, 19));
    proof {
        lemma_add_assoc(start, acc, p6);
        acc = acc + p6;
    }
    out.append("\n");
    proof {
        lemma_add_assoc(start, acc, "\n"@);
        acc = acc + "\n"@;
    }
    assert(acc == row_text(*d));
}

/// Formats the device table shown by `osh-admin list`.
pub fn format_device_list(config: &DevicesConfig) -> (r: String)
    requires
        forall|i: int| 0 <= i < config.devices@.len() ==> listable(#[trigger] config.devices@[i]),
    ensures
        exists|order: Seq<usize>|
            is_listing_order(config.devices@, order) && r@ == listing_text(*config, order),
{
    proof {
        reveal_strlit("Max devices: ");
        reveal_strlit("Total devices: ");
        reveal_strlit("\n");
        reveal_strlit("No devices registered.\n");
        reveal_strlit("  ");
        reveal_strlit("-");
    }
    let devs = &config.devices;
    let order = listing_order(devs);
    let mut out = owned("Max devices: ");
    push_decimal(&mut out, config.max_devices as usize);
    out.append("\n");
    out.append("Total devices: ");
    push_decimal(&mut out, devs.len());
    out.append("\n");
    out.append("\n");
    let ghost head = out@;
    if devs.len() == 0 {
        out.append("No devices registered.\n");
        assert(out@ =~= listing_text(*config, order@));
        return out;
    }
    push_padded(&mut out, "Device ID", 36);
    out.append("  ");
    push_padded(&mut out, "Alias", 12);
    out.append("  ");
    push_padded(&mut out, "Name", 10);
    out.append("  ");
    push_padded(&mut out, "Platform", 10);
    out.append("  ");
    push_padded(&mut out, "Status", 10);
    out.append("  ");
    out.append("Last Seen");
    out.append("\n");
    assert(out@ =~= head + header_text());
    let mut j: usize = 0;
    while j < 100
        invariant
            j <= 100,
            out@ == head + header_text() + dashes(j as int),
        decreases 100 - j,
    {
        proof {
            reveal_strlit("-");
        }
        out.append("-");
        j = j + 1;
        assert(out@ =~= head + header_text() + dashes(j as int));
    }
    out.append("\n");
    let ghost top = out@;
    assert(top =~= head + header_text() + dashes(100) + "\n"@);
    let n = order.len();
    for k in 0..n
        invariant
            n == order@.len(),
            devs@ == config.devices@,
            is_listing_order(config.devices@, order@),
            forall|i: int| 0 <= i < config.devices@.len() ==> listable(#[trigger] config.devices@[i]),
            out@ == top + rows_text(config.devices@, order@.take(k as int)),
    {
        let idx = order[k];
        assert(order@[k as int] < config.devices@.len());
        push_row(&mut out, &devs[idx]);
        assert(order@.take(k + 1).drop_last() =~= order@.take(k as int));
        assert(out@ =~= top + rows_text(config.devices@, order@.take(k + 1)));
    }
    assert(order@.take(n as int) =~= order@);
    assert(out@ =~= listing_text(*config, order@));
    out
}

} // verus!
