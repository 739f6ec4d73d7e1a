//! The rules of the OCR pipeline that do not touch pixels: where the models
//! live, the preprocessing settings, which reading order a page follows, how
//! recognised lines become Markdown and plain text, and how a recognition
//! model's best label at each step becomes text.
use vstd::prelude::*;
use crate::error::{OcrError, ShuseiError};
use crate::storage::{join_path, path_join};
use crate::text::{joined, views, join_strings, push_str, str_eq};

verus! {

/// Path of the text detection model.
pub const MODEL_DETECTION_PATH: &'static str = "assets/ocr/models/deim-s-1024x1024.onnx";

/// Path of the text recognition model.
pub const MODEL_RECOGNITION_PATH: &'static str =
    "assets/ocr/models/parseq-ndl-16x384-50-tiny-146epoch-tegaki2.onnx";

/// Where a bundled model named `name` lives: the two known models by their
/// own paths, any other as `assets/ocr/models/<name>.onnx`.
pub open spec fn model_path(name: Seq<char>) -> Seq<char> {
    if name == "detection"@ {
        MODEL_DETECTION_PATH@
    } else if name == "recognition"@ {
        MODEL_RECOGNITION_PATH@
    } else {
        "assets/ocr/models/"@ + name + ".onnx"@
    }
}

/// The path of the bundled model `model_name`.
pub fn get_model_path(model_name: &str) -> (p: String)
    ensures
        p@ == model_path(model_name@),
{
    if str_eq(model_name, "detection") {
        String::from_str(MODEL_DETECTION_PATH)
    } else if str_eq(model_name, "recognition") {
        String::from_str(MODEL_RECOGNITION_PATH)
    } else {
        let mut p = String::from_str("assets/ocr/models/");
        push_str(&mut p, model_name);
        push_str(&mut p, ".onnx");
        p
    }
}

/// Image preprocessing settings.
#[derive(Debug, Clone)]
pub struct PreprocessConfig {
    /// The longest side an image may keep.
    pub max_size: u32,
    /// Whether pixel values are scaled into `[0, 1]`.
    pub normalize: bool,
    /// Whether the image is turned to grayscale.
    pub grayscale: bool,
}

impl Default for PreprocessConfig {
    /// Images up to 1024 pixels a side, normalised, in colour.
    fn default() -> (c: PreprocessConfig)
        ensures
            c.max_size == 1024,
            c.normalize,
            !c.grayscale,
    {
        PreprocessConfig { max_size: 1024, normalize: true, grayscale: false }
    }
}

/// The order in which the text regions of a page are read.
#[derive(Debug, Clone, Copy, PartialEq, Eq, Structural)]
pub enum ReadingOrder {
    /// Left to right, top to bottom.
    Horizontal,
    /// Top to bottom, right to left.
    Vertical,
    /// Both kinds of lines.
    Mixed,
}

impl Default for ReadingOrder {
    /// Horizontal.
    fn default() -> (o: ReadingOrder)
        ensures
            o == ReadingOrder::Horizontal,
    {
        ReadingOrder::Horizontal
    }
}

/// How many of the flags are set.
pub open spec fn count_set(flags: Seq<bool>) -> nat
    decreases flags.len(),
{
    if flags.len() == 0 {
        0
    } else {
        count_set(flags.drop_last()) + if flags.last() { 1nat } else { 0nat }
    }
}

/// The reading order of a page whose regions are vertical where the flags
/// are set: the kind with more regions wins, a tie is mixed, and a page
/// without regions reads horizontally.
pub open spec fn reading_order_of(vertical: Seq<bool>) -> ReadingOrder {
    let v = count_set(vertical);
    let h = vertical.len() - v;
    if v > h {
        ReadingOrder::Vertical
    } else if h > v {
        ReadingOrder::Horizontal
    } else if vertical.len() > 0 {
        ReadingOrder::Mixed
    } else {
        ReadingOrder::Horizontal
    }
}

proof fn lemma_count_set_bound(flags: Seq<bool>)
    ensures
        count_set(flags) <= flags.len(),
    decreases flags.len(),
{
    if flags.len() > 0 {
        lemma_count_set_bound(flags.drop_last());
    }
}

proof fn lemma_count_set_is_filter(flags: Seq<bool>)
    ensures
        count_set(flags) == flags.filter(|b: bool| b).len(),
    decreases flags.len(),
{
    reveal(Seq::filter);
    if flags.len() > 0 {
        lemma_count_set_is_filter(flags.drop_last());
    }
}

/// The majority kind of region decides the reading order: more vertical
/// regions than horizontal ones read vertically, fewer read horizontally,
/// as many of each (and at least one) read mixed, and a page without
/// regions reads horizontally.
pub proof fn lemma_majority_decides_reading_order(vertical: Seq<bool>)
    ensures
        ({
            let v = vertical.filter(|b: bool| b).len();
            let h = vertical.filter(|b: bool| !b).len();
            &&& v + h == vertical.len()
            &&& v > h ==> reading_order_of(vertical) == ReadingOrder::Vertical
            &&& v < h ==> reading_order_of(vertical) == ReadingOrder::Horizontal
            &&& v == h && vertical.len() > 0 ==> reading_order_of(vertical) == ReadingOrder::Mixed
            &&& vertical.len() == 0 ==> reading_order_of(vertical) == ReadingOrder::Horizontal
        }),
{
    lemma_count_set_is_filter(vertical);
    lemma_filters_partition(vertical);
}

proof fn lemma_filters_partition(flags: Seq<bool>)
    ensures
        flags.filter(|b: bool| b).len() + flags.filter(|b: bool| !b).len() == flags.len(),
    decreases flags.len(),
{
    reveal(Seq::filter);
    if flags.len() > 0 {
        lemma_filters_partition(flags.drop_last());
    }
}

/// The reading order of a page, from whether each of its regions is
/// vertical.
pub fn determine_reading_order(vertical: &[bool]) -> (o: ReadingOrder)
    ensures
        o == reading_order_of(vertical@),
{
    let mut v: usize = 0;
    let mut i: usize = 0;
    while i < vertical.len()
        invariant
            i <= vertical@.len(),
            v == count_set(vertical@.subrange(0, i as int)),
        decreases vertical.len() - i,
    {
        assert(vertical@.subrange(0, i + 1).drop_last() =~= vertical@.subrange(0, i as int));
        proof {
            lemma_count_set_bound(vertical@.subrange(0, i as int));
        }
        if vertical[i] {
            v = v + 1;
        }
        i = i + 1;
    }
    assert(vertical@.subrange(0, vertical@.len() as int) =~= vertical@);
    proof {
        lemma_count_set_bound(vertical@);
    }
    let h = vertical.len() - v;
    if v > h {
        ReadingOrder::Vertical
    } else if h > v {
        ReadingOrder::Horizontal
    } else if vertical.len() > 0 {
        ReadingOrder::Mixed
    } else {
        ReadingOrder::default()
    }
}

/// Whether the key `a` sorts strictly before the key `b`: by the first
/// component, then by the second.
pub open spec fn key_before(a: (i64, i64), b: (i64, i64)) -> bool {
    a.0 < b.0 || (a.0 == b.0 && a.1 < b.1)
}

/// Whether the item at position `i` comes before the one at position `j` in
/// a stable sort by `keys`: its key is smaller, or the keys are equal and it
/// stood first.
pub open spec fn comes_before(keys: Seq<(i64, i64)>, i: int, j: int) -> bool {
    key_before(keys[i], keys[j]) || (keys[i] == keys[j] && i < j)
}

/// `order` lists every position of `keys` once, in the order of a stable
/// sort by key.
pub open spec fn is_stable_order(keys: Seq<(i64, i64)>, order: Seq<usize>) -> bool {
    &&& order.len() == keys.len()
    &&& forall|k: int| 0 <= k < order.len() ==> (#[trigger] order[k]) < keys.len()
    &&& forall|a: int, b: int|
        #![trigger order[a], order[b]]
        0 <= a < b < order.len() ==> comes_before(keys, order[a] as int, order[b] as int)
    &&& forall|i: usize| (i as int) < keys.len() ==> #[trigger] order.contains(i)
}

fn key_before_exec(a: (i64, i64), b: (i64, i64)) -> (r: bool)
    ensures
        r == key_before(a, b),
{
    a.0 < b.0 || (a.0 == b.0 && a.1 < b.1)
}

proof fn lemma_comes_before_transitive(keys: Seq<(i64, i64)>, x: int, y: int, z: int)
    requires
        comes_before(keys, x, y),
        comes_before(keys, y, z),
    ensures
        comes_before(keys, x, z),
{
}

/// Putting position `i` at `p`, after every listed position whose key is not
/// larger and before those whose key is, keeps the list in stable order.
proof fn lemma_insert_in_order(keys: Seq<(i64, i64)>, old: Seq<usize>, p: int, i: usize)
    requires
        0 <= p <= old.len(),
        old.len() == i,
        i < keys.len(),
        forall|k: int| 0 <= k < i ==> (#[trigger] old[k]) < i,
        forall|a: int, b: int|
            #![trigger old[a], old[b]]
            0 <= a < b < i ==> comes_before(keys, old[a] as int, old[b] as int),
        forall|j: usize| j < i ==> #[trigger] old.contains(j),
        p > 0 ==> !key_before(keys[i as int], keys[old[p - 1] as int]),
        forall|k: int| p <= k < i ==> key_before(keys[i as int], keys[#[trigger] old[k] as int]),
    ensures
        old.insert(p, i).len() == i + 1,
        forall|k: int| 0 <= k < i + 1 ==> (#[trigger] old.insert(p, i)[k]) < i + 1,
        forall|a: int, b: int|
            #![trigger old.insert(p, i)[a], old.insert(p, i)[b]]
            0 <= a < b < i + 1 ==> comes_before(
                keys,
                old.insert(p, i)[a] as int,
                old.insert(p, i)[b] as int,
            ),
        forall|j: usize| j < i + 1 ==> #[trigger] old.insert(p, i).contains(j),
{
    old.insert_ensures(p, i);
    let new = old.insert(p, i);
    assert forall|k: int| 0 <= k < i + 1 implies (#[trigger] new[k]) < i + 1 by {
        if k > p {
            assert(new[k] == old[k - 1]);
        }
    }
    assert forall|a: int, b: int|
        #![trigger new[a], new[b]]
        0 <= a < b < i + 1 implies comes_before(keys, new[a] as int, new[b] as int) by {
        if b < p {
            assert(new[a] == old[a] && new[b] == old[b]);
        } else if b == p {
            let q = p - 1;
            assert(old[q] < i);
            assert(comes_before(keys, old[q] as int, i as int));
            if a < q {
                assert(new[a] == old[a]);
                assert(comes_before(keys, old[a] as int, old[q] as int));
                lemma_comes_before_transitive(keys, old[a] as int, old[q] as int, i as int);
            }
        } else if a == p {
            assert(new[b] == old[b - 1]);
            assert(key_before(keys[i as int], keys[old[b - 1] as int]));
        } else if a < p {
            assert(new[a] == old[a] && new[b] == old[b - 1]);
        } else {
            assert(new[a] == old[a - 1] && new[b] == old[b - 1]);
        }
    }
    assert forall|j: usize| j < i + 1 implies #[trigger] new.contains(j) by {
        if j == i {
            assert(new[p] == i);
        } else {
            assert(old.contains(j));
            let k = choose|k: int| 0 <= k < old.len() && old[k] == j;
            if k < p {
                assert(new[k] == j);
            } else {
                assert(new[k + 1] == j);
            }
        }
    }
}

/// The positions of `keys` in the order of a stable sort by key. It inserts
/// each position after every earlier one whose key is not larger.
pub fn stable_sort_positions(keys: &[(i64, i64)]) -> (order: Vec<usize>)
    ensures
        is_stable_order(keys@, order@),
{
    let n = keys.len();
    let mut order: Vec<usize> = Vec::new();
    let mut i: usize = 0;
    while i < n
        invariant
            n == keys@.len(),
            i <= n,
            order@.len() == i,
            forall|k: int| 0 <= k < i ==> (#[trigger] order@[k]) < i,
            forall|a: int, b: int|
                #![trigger order@[a], order@[b]]
                0 <= a < b < i ==> comes_before(keys@, order@[a] as int, order@[b] as int),
            forall|j: usize| j < i ==> #[trigger] order@.contains(j),
        decreases n - i,
    {
        let mut p: usize = i;
        while p > 0 && key_before_exec(keys[i], keys[order[p - 1]])
            invariant
                n == keys@.len(),
                i < n,
                p <= i,
                order@.len() == i,
                forall|k: int| 0 <= k < i ==> (#[trigger] order@[k]) < i,
                forall|k: int| p <= k < i ==> key_before(keys@[i as int], keys@[#[trigger] order@[k] as int]),
            decreases p,
        {
            p = p - 1;
        }
        let ghost before = order@;
        order.insert(p, i);
        proof {
            lemma_insert_in_order(keys@, before, p as int, i);
        }
        i = i + 1;
    }
    order
}

/// Two lists in stable order for the same keys agree on their first `k`
/// entries.
proof fn lemma_stable_order_prefix(keys: Seq<(i64, i64)>, o1: Seq<usize>, o2: Seq<usize>, k: int)
    requires
        is_stable_order(keys, o1),
        is_stable_order(keys, o2),
        0 <= k <= keys.len(),
    ensures
        forall|m: int| 0 <= m < k ==> o1[m] == o2[m],
    decreases k,
{
    if k > 0 {
        lemma_stable_order_prefix(keys, o1, o2, k - 1);
        let m = k - 1;
        let u = o1[m];
        let v = o2[m];
        if u != v {
            assert(o1.contains(v));
            let k1 = choose|x: int| 0 <= x < o1.len() && o1[x] == v;
            assert(o2.contains(u));
            let k2 = choose|x: int| 0 <= x < o2.len() && o2[x] == u;
            if k1 < m {
                assert(o2[k1] == v);
                assert(comes_before(keys, o2[k1] as int, o2[m] as int));
            }
            if k2 < m {
                assert(o1[k2] == u);
                assert(comes_before(keys, o1[k2] as int, o1[m] as int));
            }
            assert(comes_before(keys, o1[m] as int, o1[k1] as int));
            assert(comes_before(keys, o2[m] as int, o2[k2] as int));
        }
    }
}

/// A stable order is determined by the keys: two lists in stable order for
/// the same keys are equal.
pub proof fn lemma_stable_order_unique(keys: Seq<(i64, i64)>, o1: Seq<usize>, o2: Seq<usize>)
    requires
        is_stable_order(keys, o1),
        is_stable_order(keys, o2),
    ensures
        o1 == o2,
{
    lemma_stable_order_prefix(keys, o1, o2, keys.len() as int);
    assert(o1 =~= o2);
}

/// The sort key of a region in a reading order, from its corner `(x, y)`:
/// top to bottom then left to right, or for vertical text right to left then
/// top to bottom.
pub open spec fn reading_key(order: ReadingOrder, corner: (i32, i32)) -> (i64, i64) {
    match order {
        ReadingOrder::Vertical => ((-corner.0) as i64, corner.1 as i64),
        _ => (corner.1 as i64, corner.0 as i64),
    }
}

/// The reading keys of all regions.
pub open spec fn reading_keys(order: ReadingOrder, corners: Seq<(i32, i32)>) -> Seq<(i64, i64)> {
    Seq::new(corners.len(), |k: int| reading_key(order, corners[k]))
}

/// The positions of a page's regions in reading order, from each region's
/// top-left corner `(x, y)` (coordinates ordered as the page's are): a
/// stable sort by the reading key.
pub fn sort_by_reading_order(corners: &[(i32, i32)], order: ReadingOrder) -> (positions: Vec<usize>)
    ensures
        is_stable_order(reading_keys(order, corners@), positions@),
{
    let mut keys: Vec<(i64, i64)> = Vec::new();
    let mut k: usize = 0;
    while k < corners.len()
        invariant
            k <= corners@.len(),
            keys@.len() == k,
            forall|m: int| 0 <= m < k ==> #[trigger] keys@[m] == reading_key(order, corners@[m]),
        decreases corners.len() - k,
    {
        let (x, y) = corners[k];
        let key: (i64, i64) = match order {
            ReadingOrder::Vertical => (-(x as i64), y as i64),
            _ => (y as i64, x as i64),
        };
        keys.push(key);
        k = k + 1;
    }
    assert(keys@ =~= reading_keys(order, corners@));
    stable_sort_positions(&keys)
}

/// The text of a vertical region as it stands in Markdown: unchanged.
pub fn format_text_vertical(text: &str) -> (r: String)
    ensures
        r@ == text@,
{
    String::from_str(text)
}

/// The plain text of a page: its regions' texts joined with spaces.
pub fn generate_plain_text(texts: &[String]) -> (r: String)
    ensures
        r@ == joined(views(texts@), " "@),
{
    join_strings(texts, " ")
}

/// A recognised region of a page, in reading order, with what the layout
/// says of it.
#[derive(Debug, Clone)]
pub struct RegionLayout {
    /// Whether the region starts more than a paragraph gap away from the
    /// previous one (the first region always does).
    pub far_from_previous: bool,
    /// The region's text direction in degrees.
    pub direction: u32,
    /// Whether the region's text is vertical.
    pub is_vertical: bool,
    /// The recognised text.
    pub text: String,
}

/// The direction of the region before the `n`-th, 0 before the first.
pub open spec fn direction_before(regions: Seq<RegionLayout>, n: int) -> u32 {
    if n <= 0 {
        0
    } else {
        regions[n - 1].direction
    }
}

/// The separator written before the `n`-th region after `md`: a blank line
/// after a paragraph gap, a line break when the direction changes, nothing
/// at the start.
pub open spec fn separator_before(regions: Seq<RegionLayout>, n: int, md: Seq<char>) -> Seq<char> {
    if regions[n].far_from_previous {
        if md.len() > 0 {
            "\n\n"@
        } else {
            Seq::<char>::empty()
        }
    } else if direction_before(regions, n) != regions[n].direction && md.len() > 0 {
        "\n"@
    } else {
        Seq::<char>::empty()
    }
}

/// The Markdown of the first `n` regions.
pub open spec fn markdown_prefix(regions: Seq<RegionLayout>, n: nat) -> Seq<char>
    decreases n,
{
    if n == 0 {
        Seq::<char>::empty()
    } else {
        let md = markdown_prefix(regions, (n - 1) as nat);
        md + separator_before(regions, n - 1, md) + regions[n - 1].text@
    }
}

/// The Markdown of a page's regions, in the order given.
pub open spec fn markdown_of(regions: Seq<RegionLayout>) -> Seq<char> {
    markdown_prefix(regions, regions.len())
}

/// The Markdown of a page whose regions stand in reading order: texts in
/// order, a blank line before a region far from the previous one, a line
/// break where the text direction changes.
pub fn generate_markdown(regions: &[RegionLayout]) -> (r: Result<String, ShuseiError>)
    ensures
        r matches Ok(md) && md@ == markdown_of(regions@),
{
    let mut md = String::new();
    let mut last_direction: u32 = 0;
    let mut i: usize = 0;
    while i < regions.len()
        invariant
            i <= regions@.len(),
            md@ == markdown_prefix(regions@, i as nat),
            last_direction == direction_before(regions@, i as int),
        decreases regions.len() - i,
    {
        let region = &regions[i];
        let ghost before = md@;
        let empty = md.as_str().is_empty();
        if region.far_from_previous {
            if !empty {
                push_str(&mut md, "\n\n");
            }
        } else if last_direction != region.direction && !empty {
            push_str(&mut md, "\n");
        }
        if region.is_vertical {
            let t = format_text_vertical(region.text.as_str());
            push_str(&mut md, t.as_str());
        } else {
            push_str(&mut md, region.text.as_str());
        }
        assert(md@ =~= before + separator_before(regions@, i as int, before) + regions@[i as int].text@);
        last_direction = region.direction;
        i = i + 1;
    }
    Ok(md)
}

/// Whether CTC decoding keeps the best label of step `t`: it is not the
/// blank label 0, names a dictionary entry, and differs from the label of
/// the step before (only adjacent repeats collapse; a blank between two
/// equal labels keeps both).
pub open spec fn keeps_step(best: Seq<usize>, dictionary_len: nat, t: int) -> bool {
    &&& 0 < best[t]
    &&& best[t] < dictionary_len
    &&& (t == 0 || best[t - 1] != best[t])
}

/// The labels that a recognition model's best label at each step yields
/// under CTC decoding: those of the steps it keeps, in order.
pub open spec fn collapse_labels(best: Seq<usize>, dictionary_len: nat) -> Seq<usize>
    decreases best.len(),
{
    if best.len() == 0 {
        Seq::<usize>::empty()
    } else {
        let kept = collapse_labels(best.drop_last(), dictionary_len);
        if keeps_step(best, dictionary_len, best.len() - 1) {
            kept.push(best.last())
        } else {
            kept
        }
    }
}

/// The labels kept from the best label at each step.
pub fn ctc_collapse(best: &[usize], dictionary_len: usize) -> (kept: Vec<usize>)
    ensures
        kept@ == collapse_labels(best@, dictionary_len as nat),
{
    let mut kept: Vec<usize> = Vec::new();
    let mut i: usize = 0;
    while i < best.len()
        invariant
            i <= best@.len(),
            kept@ == collapse_labels(best@.subrange(0, i as int), dictionary_len as nat),
        decreases best.len() - i,
    {
        assert(best@.subrange(0, i + 1).drop_last() =~= best@.subrange(0, i as int));
        let c = best[i];
        let fresh = i == 0 || best[i - 1] != c;
        if c > 0 && c < dictionary_len && fresh {
            kept.push(c);
        }
        i = i + 1;
    }
    assert(best@.subrange(0, best@.len() as int) =~= best@);
    kept
}

/// The dictionary entries of the labels, concatenated.
pub open spec fn spell(dictionary: Seq<String>, labels: Seq<usize>) -> Seq<char>
    decreases labels.len(),
{
    if labels.len() == 0 {
        Seq::<char>::empty()
    } else {
        spell(dictionary, labels.drop_last()) + dictionary[labels.last() as int]@
    }
}

/// The text that the best label at each step spells, under CTC decoding.
pub fn decode_labels(dictionary: &[String], best: &[usize]) -> (text: String)
    ensures
        text@ == spell(dictionary@, collapse_labels(best@, dictionary@.len())),
{
    let kept = ctc_collapse(best, dictionary.len());
    proof {
        lemma_collapse_labels_in_dictionary(best@, dictionary@.len());
    }
    let mut text = String::new();
    let mut i: usize = 0;
    while i < kept.len()
        invariant
            i <= kept@.len(),
            forall|k: int| 0 <= k < kept@.len() ==> 0 < #[trigger] kept@[k] < dictionary@.len(),
            text@ == spell(dictionary@, kept@.subrange(0, i as int)),
        decreases kept.len() - i,
    {
        assert(kept@.subrange(0, i + 1).drop_last() =~= kept@.subrange(0, i as int));
        push_str(&mut text, dictionary[kept[i]].as_str());
        i = i + 1;
    }
    assert(kept@.subrange(0, kept@.len() as int) =~= kept@);
    text
}

/// Every kept label names a dictionary entry other than the blank.
pub proof fn lemma_collapse_labels_in_dictionary(best: Seq<usize>, dictionary_len: nat)
    ensures
        forall|k: int|
            0 <= k < collapse_labels(best, dictionary_len).len() ==> 0 < #[trigger] collapse_labels(
                best,
                dictionary_len,
            )[k] < dictionary_len,
    decreases best.len(),
{
    if best.len() > 0 {
        lemma_collapse_labels_in_dictionary(best.drop_last(), dictionary_len);
        let kept = collapse_labels(best.drop_last(), dictionary_len);
        let all = collapse_labels(best, dictionary_len);
        assert forall|k: int| 0 <= k < all.len() implies 0 < #[trigger] all[k] < dictionary_len by {
            if k < kept.len() {
                assert(all[k] == kept[k]);
            }
        }
    }
}

/// The kept labels are the labels of the kept steps: one for each kept
/// step, in order, and no kept step repeats the label of the step before.
pub proof fn lemma_kept_steps_spell_labels(best: Seq<usize>, dictionary_len: nat)
    ensures
        kept_positions(best, dictionary_len).len() == collapse_labels(best, dictionary_len).len(),
        forall|k: int|
            0 <= k < kept_positions(best, dictionary_len).len() ==> {
                let t = #[trigger] kept_positions(best, dictionary_len)[k];
                &&& 0 <= t < best.len()
                &&& best[t] == collapse_labels(best, dictionary_len)[k]
                &&& (t == 0 || best[t - 1] != best[t])
            },
    decreases best.len(),
{
    if best.len() > 0 {
        let init = best.drop_last();
        lemma_kept_steps_spell_labels(init, dictionary_len);
        let steps = kept_positions(best, dictionary_len);
        let labels = collapse_labels(best, dictionary_len);
        let old_steps = kept_positions(init, dictionary_len);
        let old_labels = collapse_labels(init, dictionary_len);
        assert forall|k: int| 0 <= k < steps.len() implies {
            let t = #[trigger] steps[k];
            &&& 0 <= t < best.len()
            &&& best[t] == labels[k]
            &&& (t == 0 || best[t - 1] != best[t])
        } by {
            if k < old_steps.len() {
                let t = old_steps[k];
                assert(steps[k] == t);
                assert(labels[k] == old_labels[k]);
                assert(best[t] == init[t]);
                if t > 0 {
                    assert(best[t - 1] == init[t - 1]);
                }
            }
        }
    }
}

/// The file names of the OCR engine's models and dictionary in its model
/// directory: detection, recognition, direction classification, dictionary.
pub fn ocr_model_files(model_dir: &str) -> (files: (String, String, String, String))
    ensures
        files.0@ == path_join(model_dir@, "deim-s-1024x1024.onnx"@),
        files.1@ == path_join(model_dir@, "parseq-ndl-16x384-50-tiny-146epoch-tegaki2.onnx"@),
        files.2@ == path_join(model_dir@, "direction_classifier.onnx"@),
        files.3@ == path_join(model_dir@, "dict.txt"@),
{
    (
        join_path(model_dir, "deim-s-1024x1024.onnx"),
        join_path(model_dir, "parseq-ndl-16x384-50-tiny-146epoch-tegaki2.onnx"),
        join_path(model_dir, "direction_classifier.onnx"),
        join_path(model_dir, "dict.txt"),
    )
}

/// Whether the OCR engine is ready once its models are loaded: it needs the
/// detection and the recognition model; the direction model is optional.
pub fn ocr_engine_ready(has_detection: bool, has_recognition: bool) -> (r: Result<(), ShuseiError>)
    ensures
        r is Ok <==> has_detection && has_recognition,
        r matches Err(e) ==> e matches ShuseiError::Ocr(OcrError::ModelLoading(m))
            && m@ == "Failed to load required OCR models"@,
{
    if has_detection && has_recognition {
        Ok(())
    } else {
        Err(ShuseiError::Ocr(OcrError::ModelLoading(String::from_str("Failed to load required OCR models"))))
    }
}

/// Recognising an image needs an initialised engine.
pub fn check_ocr_engine_initialized(initialized: bool) -> (r: Result<(), ShuseiError>)
    ensures
        r is Ok <==> initialized,
        r matches Err(e) ==> e matches ShuseiError::Ocr(OcrError::Inference(m)) && m@ == "Engine not initialized"@,
{
    if initialized {
        Ok(())
    } else {
        Err(ShuseiError::Ocr(OcrError::Inference(String::from_str("Engine not initialized"))))
    }
}

/// The Markdown and the plain text of a page from its recognised lines:
/// the lines joined with line breaks, and with spaces.
pub fn page_texts(lines: &[String]) -> (texts: (String, String))
    ensures
        texts.0@ == joined(views(lines@), "\n"@),
        texts.1@ == joined(views(lines@), " "@),
{
    (join_strings(lines, "\n"), join_strings(lines, " "))
}

/// Whether no region kept so far overlaps region `j`.
pub open spec fn clear_of_kept(overlaps: Seq<Seq<bool>>, kept: Seq<bool>, j: int) -> bool {
    forall|i: int| 0 <= i < kept.len() && #[trigger] kept[i] ==> !overlaps[i][j]
}

/// Which of the first `n` regions, in order of decreasing confidence,
/// non-maximum suppression keeps: a region is kept when no region kept
/// before it overlaps it.
pub open spec fn suppression_keeps(overlaps: Seq<Seq<bool>>, n: nat) -> Seq<bool>
    decreases n,
{
    if n == 0 {
        Seq::<bool>::empty()
    } else {
        let kept = suppression_keeps(overlaps, (n - 1) as nat);
        kept.push(clear_of_kept(overlaps, kept, n - 1))
    }
}

proof fn lemma_suppression_keeps_len(overlaps: Seq<Seq<bool>>, n: nat)
    ensures
        suppression_keeps(overlaps, n).len() == n,
    decreases n,
{
    if n > 0 {
        lemma_suppression_keeps_len(overlaps, (n - 1) as nat);
    }
}

/// Non-maximum suppression over regions sorted by decreasing confidence,
/// where `overlaps[i][j]` says that region `i` overlaps region `j` more
/// than the threshold allows: which regions are kept.
pub fn nms_keep(overlaps: &Vec<Vec<bool>>) -> (keep: Vec<bool>)
    requires
        forall|i: int| 0 <= i < overlaps@.len() ==> (#[trigger] overlaps@[i])@.len() >= overlaps@.len(),
    ensures
        keep@ == suppression_keeps(overlaps.deep_view(), overlaps@.len() as nat),
{
    let n = overlaps.len();
    let ghost over = overlaps.deep_view();
    let mut keep: Vec<bool> = Vec::new();
    let mut j: usize = 0;
    while j < n
        invariant
            j <= n == overlaps@.len() == over.len(),
            over == overlaps.deep_view(),
            forall|i: int| 0 <= i < overlaps@.len() ==> (#[trigger] overlaps@[i])@.len() >= overlaps@.len(),
            keep@ == suppression_keeps(over, j as nat),
        decreases n - j,
    {
        proof {
            lemma_suppression_keeps_len(over, j as nat);
        }
        let mut clear = true;
        let mut i: usize = 0;
        while i < j
            invariant
                i <= j < n == overlaps@.len() == over.len(),
                over == overlaps.deep_view(),
                forall|k: int| 0 <= k < overlaps@.len() ==> (#[trigger] overlaps@[k])@.len() >= overlaps@.len(),
                keep@.len() == j,
                clear == (forall|k: int| 0 <= k < i && #[trigger] keep@[k] ==> !over[k][j as int]),
            decreases j - i,
        {
            assert(over[i as int] == overlaps@[i as int]@);
            if keep[i] && overlaps[i][j] {
                clear = false;
            }
            i = i + 1;
        }
        keep.push(clear);
        j = j + 1;
    }
    keep
}

/// Of the regions kept, none overlaps a later one, and every region left
/// out is overlapped by an earlier region that is kept.
pub proof fn lemma_suppression(overlaps: Seq<Seq<bool>>, n: nat)
    ensures
        forall|i: int, j: int|
            0 <= i < j < n && #[trigger] suppression_keeps(overlaps, n)[i] && #[trigger] suppression_keeps(
                overlaps,
                n,
            )[j] ==> !overlaps[i][j],
        forall|j: int|
            0 <= j < n && !#[trigger] suppression_keeps(overlaps, n)[j] ==> exists|i: int|
                0 <= i < j && suppression_keeps(overlaps, n)[i] && overlaps[i][j],
    decreases n,
{
    lemma_suppression_keeps_len(overlaps, n);
    if n > 0 {
        let m = (n - 1) as nat;
        lemma_suppression(overlaps, m);
        lemma_suppression_keeps_len(overlaps, m);
        let kept = suppression_keeps(overlaps, m);
        let all = suppression_keeps(overlaps, n);
        assert forall|i: int, j: int| 0 <= i < j < n && #[trigger] all[i] && #[trigger] all[j] implies !overlaps[i][j] by {
            assert(all[i] == kept[i]);
            if j < m {
                assert(all[j] == kept[j]);
            }
        }
        assert forall|j: int| 0 <= j < n && !#[trigger] all[j] implies exists|i: int|
            0 <= i < j && all[i] && overlaps[i][j] by {
            if j < m {
                assert(all[j] == kept[j]);
                let i = choose|i: int| 0 <= i < j && kept[i] && overlaps[i][j];
                assert(all[i] == kept[i]);
            } else {
                let i = choose|i: int| 0 <= i < kept.len() && #[trigger] kept[i] && overlaps[i][j];
                assert(all[i] == kept[i]);
            }
        }
    }
}

/// The steps whose best label CTC decoding keeps: those `collapse_labels`
/// keeps a label for, in order.
pub open spec fn kept_positions(best: Seq<usize>, dictionary_len: nat) -> Seq<int>
    decreases best.len(),
{
    if best.len() == 0 {
        Seq::<int>::empty()
    } else {
        let kept = kept_positions(best.drop_last(), dictionary_len);
        if keeps_step(best, dictionary_len, best.len() - 1) {
            kept.push(best.len() - 1)
        } else {
            kept
        }
    }
}

/// The steps whose best label is kept, for scoring the recognised text.
pub fn kept_steps(best: &[usize], dictionary_len: usize) -> (steps: Vec<usize>)
    ensures
        steps@.map_values(|t: usize| t as int) == kept_positions(best@, dictionary_len as nat),
        forall|k: int| 0 <= k < steps@.len() ==> #[trigger] steps@[k] < best@.len(),
{
    let mut steps: Vec<usize> = Vec::new();
    let mut kept: Vec<usize> = Vec::new();
    let mut i: usize = 0;
    while i < best.len()
        invariant
            i <= best@.len(),
            kept@ == collapse_labels(best@.subrange(0, i as int), dictionary_len as nat),
            steps@.map_values(|t: usize| t as int) == kept_positions(best@.subrange(0, i as int), dictionary_len as nat),
            forall|k: int| 0 <= k < steps@.len() ==> #[trigger] steps@[k] < i,
        decreases best.len() - i,
    {
        let ghost prefix = best@.subrange(0, i + 1);
        assert(prefix.drop_last() =~= best@.subrange(0, i as int));
        let c = best[i];
        let fresh = i == 0 || best[i - 1] != c;
        if c > 0 && c < dictionary_len && fresh {
            let ghost before = steps@;
            kept.push(c);
            steps.push(i);
            assert(steps@.map_values(|t: usize| t as int) =~= before.map_values(|t: usize| t as int).push(i as int));
        }
        i = i + 1;
    }
    assert(best@.subrange(0, best@.len() as int) =~= best@);
    steps
}

/// The paragraphs of items in order: a new paragraph starts at every item
/// after the first whose break flag is set.
pub open spec fn paragraphs_of<T>(items: Seq<T>, breaks: Seq<bool>) -> Seq<Seq<T>>
    decreases items.len(),
{
    if items.len() == 0 {
        Seq::<Seq<T>>::empty()
    } else if items.len() == 1 {
        seq![seq![items[0]]]
    } else {
        let init = paragraphs_of(items.drop_last(), breaks);
        if breaks[items.len() - 1] {
            init.push(seq![items.last()])
        } else {
            init.update(init.len() - 1, init.last().push(items.last()))
        }
    }
}

proof fn lemma_paragraphs_nonempty<T>(items: Seq<T>, breaks: Seq<bool>)
    ensures
        items.len() > 0 ==> paragraphs_of(items, breaks).len() > 0,
    decreases items.len(),
{
    if items.len() > 1 {
        lemma_paragraphs_nonempty(items.drop_last(), breaks);
    }
}

/// Groups items into paragraphs: a new paragraph starts at every item after
/// the first whose break flag is set.
pub fn group_paragraphs<T>(items: Vec<T>, breaks: &[bool]) -> (groups: Vec<Vec<T>>)
    requires
        breaks@.len() >= items@.len(),
    ensures
        groups@.map_values(|g: Vec<T>| g@) == paragraphs_of(items@, breaks@),
{
    let ghost all = items@;
    let mut rest = items;
    let mut groups: Vec<Vec<T>> = Vec::new();
    let mut current: Vec<T> = Vec::new();
    let mut k: usize = 0;
    while rest.len() > 0
        invariant
            k <= all.len(),
            breaks@.len() >= all.len(),
            rest@ == all.subrange(k as int, all.len() as int),
            k == 0 ==> groups@.len() == 0 && current@.len() == 0,
            k > 0 ==> groups@.map_values(|g: Vec<T>| g@).push(current@) == paragraphs_of(
                all.subrange(0, k as int),
                breaks@,
            ),
        decreases rest.len(),
    {
        let item = rest.remove(0);
        let ghost before = groups@.map_values(|g: Vec<T>| g@);
        let ghost cur = current@;
        let ghost prefix = all.subrange(0, k + 1);
        proof {
            assert(prefix.drop_last() =~= all.subrange(0, k as int));
            assert(prefix.last() == item);
        }
        if k > 0 && breaks[k] {
            let mut done: Vec<T> = Vec::new();
            std::mem::swap(&mut done, &mut current);
            groups.push(done);
            current.push(item);
            assert(groups@.map_values(|g: Vec<T>| g@) =~= before.push(cur));
            assert(groups@.map_values(|g: Vec<T>| g@).push(current@) =~= before.push(cur).push(seq![item]));
        } else {
            current.push(item);
            if k == 0 {
                assert(prefix =~= seq![item]);
                assert(current@ =~= seq![item]);
                assert(groups@.map_values(|g: Vec<T>| g@) =~= Seq::<Seq<T>>::empty());
                assert(groups@.map_values(|g: Vec<T>| g@).push(current@) =~= seq![seq![item]]);
            } else {
                assert(groups@.map_values(|g: Vec<T>| g@).push(current@) =~= before.push(cur).update(
                    before.len() as int,
                    cur.push(item),
                ));
            }
        }
        k = k + 1;
        proof {
            assert(rest@ =~= all.subrange(k as int, all.len() as int));
        }
    }
    assert(all.subrange(0, all.len() as int) =~= all);
    if k > 0 {
        groups.push(current);
    } else {
        assert(all =~= Seq::<T>::empty());
    }
    groups
}

/// Paragraphs keep every item, in order: joined back together they give
/// the items.
pub proof fn lemma_paragraphs_keep_items<T>(items: Seq<T>, breaks: Seq<bool>)
    requires
        breaks.len() >= items.len(),
    ensures
        paragraphs_of(items, breaks).fold_left(Seq::<T>::empty(), |acc: Seq<T>, g: Seq<T>| acc + g) == items,
    decreases items.len(),
{
    let ps = paragraphs_of(items, breaks);
    let f = |acc: Seq<T>, g: Seq<T>| acc + g;
    if items.len() == 0 {
    } else if items.len() == 1 {
        assert(ps =~= seq![seq![items[0]]]);
        assert(ps.drop_last() =~= Seq::<Seq<T>>::empty());
        assert(ps.fold_left(Seq::<T>::empty(), f) == ps.drop_last().fold_left(Seq::<T>::empty(), f) + ps.last());
        assert(seq![items[0]] =~= items);
    } else {
        let init = paragraphs_of(items.drop_last(), breaks);
        lemma_paragraphs_keep_items(items.drop_last(), breaks);
        lemma_paragraphs_nonempty(items.drop_last(), breaks);
        let x = items.last();
        if breaks[items.len() - 1] {
            assert(ps.drop_last() =~= init);
            assert(ps.fold_left(Seq::<T>::empty(), f) == init.fold_left(Seq::<T>::empty(), f) + seq![x]);
        } else {
            let n = init.len();
            let head = init.drop_last();
            assert(init.fold_left(Seq::<T>::empty(), f) == head.fold_left(Seq::<T>::empty(), f) + init.last());
            assert(ps.drop_last() =~= head);
            assert(ps.last() == init.last().push(x));
            assert(ps.fold_left(Seq::<T>::empty(), f) == head.fold_left(Seq::<T>::empty(), f) + init.last().push(x));
            assert(head.fold_left(Seq::<T>::empty(), f) + init.last().push(x) =~= (head.fold_left(Seq::<T>::empty(), f) + init.last()).push(x));
        }
        assert(items.drop_last().push(x) =~= items);
    }
}

} // verus!
