//! The video qualities offered for a download: which heights are listed, how
//! each is labelled, and in which order.
use vstd::prelude::*;
use crate::text::{chars_of, decimal, decimal_chars, digit_char, digit_char_exec, string_of};

verus! {

// ---------------------------------------------------------------------------
// Megabytes with one decimal
// ---------------------------------------------------------------------------

/// The spacing of `f64` values around `x`: 1 below 2^53, doubling with each
/// binade above.
pub open spec fn f64_spacing(x: nat) -> nat
    decreases x,
{
    if x < 0x20_0000_0000_0000 {
        1
    } else {
        2 * f64_spacing(x / 2)
    }
}

/// `x / unit` rounded to the nearest integer, ties to the even one.
pub open spec fn round_half_even(x: nat, unit: nat) -> nat {
    let q = x / unit;
    let r = x % unit;
    if 2 * r > unit || (2 * r == unit && q % 2 == 1) {
        q + 1
    } else {
        q
    }
}

/// The value of `x as f64`: the nearest multiple of the spacing at `x`,
/// ties to the even multiple.
pub open spec fn as_f64(x: nat) -> nat {
    let u = f64_spacing(x);
    round_half_even(x, u) * u
}

/// Tenths of a mebibyte in `size` bytes, as `{:.1}` prints
/// `size as f64 / (1024.0 * 1024.0)`: the `f64` value of `size`, divided
/// by 2^20, rounded to one decimal with ties to even.
pub open spec fn mb_tenths(size: nat) -> nat {
    round_half_even(as_f64(size) * 10, 0x10_0000)
}

/// For sizes below 2^53 bytes, where `f64` holds the size exactly, the
/// tenths shown are the size in tenths of a mebibyte rounded to the nearest:
/// they differ from it by at most half a tenth.
pub proof fn lemma_mb_tenths_nearest(size: nat)
    requires
        size < 0x20_0000_0000_0000,
    ensures
        size * 10 <= mb_tenths(size) * 0x10_0000 + 0x8_0000,
        mb_tenths(size) * 0x10_0000 <= size * 10 + 0x8_0000,
{
    assert(f64_spacing(size) == 1);
    assert(size / 1 == size && size % 1 == 0) by (nonlinear_arith);
    assert(as_f64(size) == size);
    let x = size * 10;
    let q = x / 0x10_0000;
    let r = x % 0x10_0000;
    vstd::arithmetic::div_mod::lemma_fundamental_div_mod(x as int, 0x10_0000);
    vstd::arithmetic::div_mod::lemma_mod_bound(x as int, 0x10_0000);
}

/// The text shown after a quality's name for a known file size, such as
/// ` (12.5 MB)`; nothing for an unknown one.
pub open spec fn size_label(filesize: Option<u64>) -> Seq<char> {
    match filesize {
        Some(s) => {
            let t = mb_tenths(s as nat);
            " ("@ + decimal(t / 10) + seq!['.', digit_char(t % 10)] + " MB)"@
        },
        None => seq![],
    }
}

fn round_half_even_exec(x: u128, unit: u128) -> (r: u128)
    requires
        0 < unit < 0x1_0000_0000_0000_0000,
        x < 0x1_0000_0000_0000_0000_0000_0000,
    ensures
        r == round_half_even(x as nat, unit as nat),
{
    let q = x / unit;
    let r = x % unit;
    if 2 * r > unit || (2 * r == unit && q % 2 == 1) {
        q + 1
    } else {
        q
    }
}

proof fn lemma_spacing_one(y: nat)
    requires
        y < 0x20_0000_0000_0000,
    ensures
        f64_spacing(y) == 1,
{
}

/// Tenths of a mebibyte in `size` bytes, rounded as `{:.1}` rounds the
/// `f64` quotient.
pub fn mb_tenths_exec(size: u64) -> (t: u128)
    ensures
        t == mb_tenths(size as nat),
{
    let x = size as u128;
    let mut y: u128 = x;
    let mut unit: u128 = 1;
    while y >= 0x20_0000_0000_0000
        invariant
            x < 0x1_0000_0000_0000_0000,
            0 < unit <= 0x1000,
            y == x / unit,
            unit * y <= x,
            f64_spacing(x as nat) == unit * f64_spacing(y as nat),
        decreases y,
    {
        assert(unit < 0x800) by (nonlinear_arith)
            requires
                unit * y <= x,
                y >= 0x20_0000_0000_0000,
                x < 0x1_0000_0000_0000_0000,
        ;
        proof {
            vstd::arithmetic::div_mod::lemma_div_denominator(x as int, unit as int, 2);
            assert(f64_spacing(y as nat) == 2 * f64_spacing((y / 2) as nat));
            assert(unit * (2 * f64_spacing((y / 2) as nat)) == (unit * 2) * f64_spacing(
                (y / 2) as nat,
            )) by (nonlinear_arith);
            assert((unit * 2) * (y / 2) <= unit * y) by (nonlinear_arith)
                requires
                    unit > 0,
            ;
        }
        y = y / 2;
        unit = unit * 2;
    }
    proof {
        lemma_spacing_one(y as nat);
        assert(unit * 1 == unit);
    }
    let q = round_half_even_exec(x, unit);
    assert(q <= x / unit + 1);
    assert(q * unit <= x + unit) by (nonlinear_arith)
        requires
            q <= x / unit + 1,
            unit > 0,
    {
        assert((x / unit) * unit <= x) by (nonlinear_arith)
            requires
                unit > 0,
        {
            vstd::arithmetic::div_mod::lemma_fundamental_div_mod(x as int, unit as int);
        }
    }
    let v = q * unit;
    round_half_even_exec(v * 10, 0x10_0000)
}

/// The size text of a quality, such as ` (12.5 MB)`.
pub fn size_label_exec(filesize: Option<u64>) -> (r: Vec<char>)
    ensures
        r@ == size_label(filesize),
{
    match filesize {
        Some(s) => {
            let t = mb_tenths_exec(s);
            let mut r = chars_of(" (");
            let mut whole = decimal_chars(t / 10);
            r.append(&mut whole);
            r.push('.');
            r.push(digit_char_exec(t % 10));
            let mut tail = chars_of(" MB)");
            r.append(&mut tail);
            assert(r@ =~= size_label(filesize));
            r
        },
        None => {
            let r: Vec<char> = Vec::new();
            assert(r@ =~= size_label(filesize));
            r
        },
    }
}

// ---------------------------------------------------------------------------
// Labels
// ---------------------------------------------------------------------------

/// The label of the quality of height `h` with the given file size: `4K`,
/// `2K`, `Full HD` and `HD` names for 2160, 1440, 1080 and 720, the height
/// followed by `p` otherwise, and the size text after it.
pub open spec fn format_label(h: u32, filesize: Option<u64>) -> Seq<char> {
    if h == 2160 {
        "4K (2160p)"@ + size_label(filesize)
    } else if h == 1440 {
        "2K (1440p)"@ + size_label(filesize)
    } else if h == 1080 {
        "1080p (Full HD)"@ + size_label(filesize)
    } else if h == 720 {
        "720p (HD)"@ + size_label(filesize)
    } else {
        decimal(h as nat) + seq!['p'] + size_label(filesize)
    }
}

/// The label of the quality of height `h` with the given file size.
pub fn format_label_exec(h: u32, filesize: Option<u64>) -> (r: String)
    ensures
        r@ == format_label(h, filesize),
{
    let mut sl = size_label_exec(filesize);
    let mut name = if h == 2160 {
        chars_of("4K (2160p)")
    } else if h == 1440 {
        chars_of("2K (1440p)")
    } else if h == 1080 {
        chars_of("1080p (Full HD)")
    } else if h == 720 {
        chars_of("720p (HD)")
    } else {
        let mut d = decimal_chars(h as u128);
        d.push('p');
        d
    };
    name.append(&mut sl);
    assert(name@ =~= format_label(h, filesize));
    string_of(&name)
}

// ---------------------------------------------------------------------------
// The list of qualities
// ---------------------------------------------------------------------------

/// A quality offered for download.
pub struct FormatItem {
    pub height: u32,
    pub filesize: Option<u64>,
    pub label: String,
}

/// The mathematical content of a [`FormatItem`].
pub struct FormatView {
    pub height: u32,
    pub filesize: Option<u64>,
    pub label: Seq<char>,
}

impl View for FormatItem {
    type V = FormatView;

    open spec fn view(&self) -> FormatView {
        FormatView { height: self.height, filesize: self.filesize, label: self.label@ }
    }
}

/// What a format of the video's metadata tells: its height and its file
/// size, where they are given as unsigned integers.
#[derive(Clone, Copy)]
pub struct FormatSource {
    pub height: Option<u64>,
    pub filesize: Option<u64>,
}

/// The views of a sequence of qualities.
pub open spec fn item_views(v: Seq<FormatItem>) -> Seq<FormatView> {
    v.map_values(|f: FormatItem| f@)
}

/// `h` as `h as u32` gives it: its low 32 bits.
pub open spec fn low_u32(h: u64) -> u32 {
    (h % 0x1_0000_0000) as u32
}

/// The quality of height `h` with the given file size.
pub open spec fn quality(h: u32, filesize: Option<u64>) -> FormatView {
    FormatView { height: h, filesize: filesize, label: format_label(h, filesize) }
}

/// Some quality of `items` has height `h`.
pub open spec fn has_height(items: Seq<FormatView>, h: u32) -> bool {
    exists|i: int| 0 <= i < items.len() && #[trigger] items[i].height == h
}

/// The qualities that `sources` offer, in the order of first appearance:
/// each source with a height whose low 32 bits are not 0 and not already
/// offered gives one, with that source's file size.
pub open spec fn offered(sources: Seq<FormatSource>) -> Seq<FormatView>
    decreases sources.len(),
{
    if sources.len() == 0 {
        seq![]
    } else {
        let prev = offered(sources.drop_last());
        match sources.last().height {
            Some(h) => {
                let hu = low_u32(h);
                if hu > 0 && !has_height(prev, hu) {
                    prev.push(quality(hu, sources.last().filesize))
                } else {
                    prev
                }
            },
            None => prev,
        }
    }
}

/// Heights strictly decrease along `items`.
pub open spec fn descending(items: Seq<FormatView>) -> bool {
    forall|i: int, j: int| 0 <= i < j < items.len() ==> items[i].height > items[j].height
}

/// `a` and `b` hold the same qualities.
pub open spec fn same_elements(a: Seq<FormatView>, b: Seq<FormatView>) -> bool {
    forall|x: FormatView| a.contains(x) <==> b.contains(x)
}

/// The offered qualities, highest first: the list that the video's
/// qualities are shown in.
pub open spec fn listed(sources: Seq<FormatSource>, result: Seq<FormatView>) -> bool {
    descending(result) && same_elements(result, offered(sources))
}

/// Every offered quality has a height above 0 and the label of its height
/// and size, and no two share a height.
pub proof fn lemma_offered_wellformed(sources: Seq<FormatSource>)
    ensures
        forall|i: int|
            0 <= i < offered(sources).len() ==> {
                let q = #[trigger] offered(sources)[i];
                q.height > 0 && q.label == format_label(q.height, q.filesize)
            },
        forall|i: int, j: int|
            0 <= i < j < offered(sources).len() ==> offered(sources)[i].height != offered(
                sources,
            )[j].height,
    decreases sources.len(),
{
    if sources.len() > 0 {
        lemma_offered_wellformed(sources.drop_last());
    }
}

/// Two lists of qualities whose heights strictly decrease and that hold the
/// same qualities are the same list: the order in which the qualities are
/// shown leaves no choice.
pub proof fn lemma_listing_unique(a: Seq<FormatView>, b: Seq<FormatView>)
    requires
        descending(a),
        descending(b),
        same_elements(a, b),
    ensures
        a == b,
    decreases a.len(),
{
    if a.len() == 0 {
        if b.len() > 0 {
            assert(b.contains(b[0]));
        }
        assert(a =~= b);
    } else {
        assert(a.contains(a[0]));
        assert(b.contains(a[0]));
        assert(b.len() > 0);
        assert(b.contains(b[0]));
        assert(a.contains(b[0]));
        let ia = choose|i: int| 0 <= i < a.len() && a[i] == b[0];
        let ib = choose|i: int| 0 <= i < b.len() && b[i] == a[0];
        assert(a[0].height >= b[0].height) by {
            if ia > 0 {
                assert(a[0].height > a[ia].height);
            }
        }
        assert(b[0].height >= a[0].height) by {
            if ib > 0 {
                assert(b[0].height > b[ib].height);
            }
        }
        assert(ia == 0) by {
            if ia > 0 {
                assert(a[0].height > a[ia].height);
            }
        }
        let ta = a.drop_first();
        let tb = b.drop_first();
        assert forall|x: FormatView| ta.contains(x) <==> tb.contains(x) by {
            if ta.contains(x) {
                let k = choose|k: int| 0 <= k < ta.len() && ta[k] == x;
                assert(a[k + 1] == x);
                assert(a.contains(x));
                assert(b.contains(x));
                let m = choose|m: int| 0 <= m < b.len() && b[m] == x;
                if m == 0 {
                    assert(a[0].height > a[k + 1].height);
                }
                assert(tb[m - 1] == x);
            }
            if tb.contains(x) {
                let k = choose|k: int| 0 <= k < tb.len() && tb[k] == x;
                assert(b[k + 1] == x);
                assert(b.contains(x));
                assert(a.contains(x));
                let m = choose|m: int| 0 <= m < a.len() && a[m] == x;
                if m == 0 {
                    assert(b[0].height > b[k + 1].height);
                }
                assert(ta[m - 1] == x);
            }
        }
        assert(descending(ta)) by {
            assert forall|i: int, j: int| 0 <= i < j < ta.len() implies ta[i].height
                > ta[j].height by {
                assert(ta[i] == a[i + 1] && ta[j] == a[j + 1]);
            }
        }
        assert(descending(tb)) by {
            assert forall|i: int, j: int| 0 <= i < j < tb.len() implies tb[i].height
                > tb[j].height by {
                assert(tb[i] == b[i + 1] && tb[j] == b[j + 1]);
            }
        }
        lemma_listing_unique(ta, tb);
        assert(a =~= seq![a[0]] + ta);
        assert(b =~= seq![b[0]] + tb);
    }
}

proof fn lemma_insert_keeps_elements(
    before: Seq<FormatView>,
    after: Seq<FormatView>,
    j: int,
    q: FormatView,
    offp: Seq<FormatView>,
)
    requires
        0 <= j <= before.len(),
        after == before.insert(j, q),
        same_elements(before, offp),
    ensures
        same_elements(after, offp.push(q)),
{
    let offc = offp.push(q);
    assert forall|x: FormatView| after.contains(x) <==> offc.contains(x) by {
        if after.contains(x) {
            let k = choose|k: int| 0 <= k < after.len() && after[k] == x;
            if k < j {
                assert(before[k] == x);
                assert(before.contains(x));
                let m = choose|m: int| 0 <= m < offp.len() && offp[m] == x;
                assert(offc[m] == x);
            } else if k > j {
                assert(before[k - 1] == x);
                assert(before.contains(x));
                let m = choose|m: int| 0 <= m < offp.len() && offp[m] == x;
                assert(offc[m] == x);
            } else {
                assert(offc[offp.len() as int] == x);
            }
        }
        if offc.contains(x) {
            let k = choose|k: int| 0 <= k < offc.len() && offc[k] == x;
            if k < offp.len() {
                assert(offp[k] == x);
                assert(offp.contains(x));
                assert(before.contains(x));
                let m = choose|m: int| 0 <= m < before.len() && before[m] == x;
                if m < j {
                    assert(after[m] == x);
                } else {
                    assert(after[m + 1] == x);
                }
            } else {
                assert(after[j] == x);
            }
        }
    }
}

/// Every height that a source gives, where its low 32 bits are not 0, is
/// offered: no quality of the video is left out.
pub proof fn lemma_every_height_offered(sources: Seq<FormatSource>)
    ensures
        forall|i: int|
            0 <= i < sources.len() && (#[trigger] sources[i]).height is Some && low_u32(
                sources[i].height->0,
            ) > 0 ==> has_height(offered(sources), low_u32(sources[i].height->0)),
    decreases sources.len(),
{
    if sources.len() > 0 {
        let s0 = sources.drop_last();
        lemma_every_height_offered(s0);
        let prev = offered(s0);
        let cur = offered(sources);
        assert(cur.len() >= prev.len());
        assert forall|k: int| 0 <= k < prev.len() implies cur[k] == prev[k] by {}
        assert forall|i: int|
            0 <= i < sources.len() && (#[trigger] sources[i]).height is Some && low_u32(
                sources[i].height->0,
            ) > 0 implies has_height(cur, low_u32(sources[i].height->0)) by {
            let hu = low_u32(sources[i].height->0);
            if i < sources.len() - 1 {
                assert(s0[i] == sources[i]);
                assert(has_height(prev, hu));
                let k = choose|k: int| 0 <= k < prev.len() && #[trigger] prev[k].height == hu;
                assert(cur[k].height == hu);
            } else if has_height(prev, hu) {
                let k = choose|k: int| 0 <= k < prev.len() && #[trigger] prev[k].height == hu;
                assert(cur[k].height == hu);
            } else {
                assert(cur == prev.push(quality(hu, sources.last().filesize)));
                assert(cur[prev.len() as int].height == hu);
            }
        }
    }
}

/// Every height that a source gives, where its low 32 bits are not 0, is
/// among the qualities shown: the listing leaves none of them out.
pub proof fn lemma_every_height_listed(sources: Seq<FormatSource>, result: Seq<FormatView>)
    requires
        listed(sources, result),
    ensures
        forall|i: int|
            0 <= i < sources.len() && (#[trigger] sources[i]).height is Some && low_u32(
                sources[i].height->0,
            ) > 0 ==> has_height(result, low_u32(sources[i].height->0)),
{
    lemma_every_height_offered(sources);
    let off = offered(sources);
    assert forall|i: int|
        0 <= i < sources.len() && (#[trigger] sources[i]).height is Some && low_u32(
            sources[i].height->0,
        ) > 0 implies has_height(result, low_u32(sources[i].height->0)) by {
        let hu = low_u32(sources[i].height->0);
        assert(has_height(off, hu));
        let k = choose|k: int| 0 <= k < off.len() && #[trigger] off[k].height == hu;
        assert(off.contains(off[k]));
        assert(result.contains(off[k]));
        let m = choose|m: int| 0 <= m < result.len() && result[m] == off[k];
        assert(result[m].height == hu);
    }
}

/// Whether some quality of `items` has height `h`.
fn has_height_exec(items: &Vec<FormatItem>, h: u32) -> (r: bool)
    ensures
        r == has_height(item_views(items@), h),
{
    let mut i: usize = 0;
    while i < items.len()
        invariant
            i <= items@.len(),
            forall|k: int| 0 <= k < i ==> items@[k].height != h,
        decreases items@.len() - i,
    {
        if items[i].height == h {
            assert(item_views(items@)[i as int].height == h);
            return true;
        }
        i = i + 1;
    }
    assert forall|k: int| 0 <= k < item_views(items@).len() implies #[trigger] item_views(
        items@,
    )[k].height != h by {
        assert(item_views(items@)[k] == items@[k]@);
    }
    false
}

/// The position at which a quality of height `h` keeps `items` descending.
fn insert_position(items: &Vec<FormatItem>, h: u32) -> (j: usize)
    requires
        descending(item_views(items@)),
    ensures
        j <= items@.len(),
        forall|k: int| 0 <= k < j ==> items@[k].height >= h,
        forall|k: int| j <= k < items@.len() ==> items@[k].height < h,
{
    let mut j: usize = 0;
    while j < items.len() && items[j].height >= h
        invariant
            j <= items@.len(),
            descending(item_views(items@)),
            forall|k: int| 0 <= k < j ==> items@[k].height >= h,
        decreases items@.len() - j,
    {
        j = j + 1;
    }
    assert forall|k: int| j <= k < items@.len() implies items@[k].height < h by {
        if k > j {
            assert(item_views(items@)[j as int].height > item_views(items@)[k].height);
        }
    }
    j
}

/// The qualities that `sources` offer, highest first: each height whose
/// low 32 bits are not 0 is listed once, with the size of its first source
/// and its label.
pub fn collect_formats(sources: &Vec<FormatSource>) -> (r: Vec<FormatItem>)
    ensures
        listed(sources@, item_views(r@)),
{
    let mut items: Vec<FormatItem> = Vec::new();
    let mut i: usize = 0;
    assert(item_views(items@) =~= seq![]);
    while i < sources.len()
        invariant
            i <= sources@.len(),
            descending(item_views(items@)),
            same_elements(item_views(items@), offered(sources@.take(i as int))),
        decreases sources@.len() - i,
    {
        let src = sources[i];
        let ghost pre = sources@.take(i as int);
        let ghost cur = sources@.take(i + 1);
        assert(cur.drop_last() =~= pre);
        assert(cur.last() == src);
        let ghost before = item_views(items@);
        match src.height {
            Some(h) => {
                let hu = (h % 0x1_0000_0000) as u32;
                assert(hu == low_u32(h));
                let seen = has_height_exec(&items, hu);
                proof {
                    if seen {
                        let k = choose|k: int| 0 <= k < before.len() && #[trigger] before[k].height
                            == hu;
                        assert(before.contains(before[k]));
                        assert(offered(pre).contains(before[k]));
                    } else {
                        if has_height(offered(pre), hu) {
                            let k = choose|k: int|
                                0 <= k < offered(pre).len() && #[trigger] offered(pre)[k].height
                                    == hu;
                            assert(offered(pre).contains(offered(pre)[k]));
                            assert(before.contains(offered(pre)[k]));
                            let m = choose|m: int| 0 <= m < before.len() && before[m] == offered(
                                pre,
                            )[k];
                            assert(before[m].height == hu);
                        }
                    }
                }
                if hu > 0 && !seen {
                    let label = format_label_exec(hu, src.filesize);
                    let item = FormatItem { height: hu, filesize: src.filesize, label };
                    let j = insert_position(&items, hu);
                    items.insert(j, item);
                    proof {
                        let after = item_views(items@);
                        let q = quality(hu, src.filesize);
                        assert(!has_height(offered(pre), hu));
                        assert(offered(cur) == offered(pre).push(q));
                        assert(after =~= before.insert(j as int, q));
                        assert forall|a: int, b: int| 0 <= a < b < after.len() implies after[a].height
                            > after[b].height by {
                            if b < j {
                                assert(after[a] == before[a] && after[b] == before[b]);
                            } else if b == j {
                                assert(after[a] == before[a]);
                                assert(before[a].height >= hu);
                                assert(before[a].height != hu);
                            } else if a < j {
                                assert(after[a] == before[a] && after[b] == before[b - 1]);
                            } else if a == j {
                                assert(after[b] == before[b - 1]);
                            } else {
                                assert(after[a] == before[a - 1] && after[b] == before[b - 1]);
                            }
                        }
                        lemma_insert_keeps_elements(before, after, j as int, q, offered(pre));
                    }
                } else {
                    assert(offered(cur) == offered(pre));
                }
            },
            None => {
                assert(offered(cur) == offered(pre));
            },
        }
        i = i + 1;
    }
    assert(sources@.take(sources@.len() as int) =~= sources@);
    items
}

} // verus!
