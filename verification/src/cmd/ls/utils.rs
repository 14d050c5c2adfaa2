//! Ordering, colours and column widths.

use vstd::prelude::*;
use vstd::string::*;
use colored::Colorize;
use crate::cmd::ls::ls_config::{Found, LsConfig};
use crate::text::{chars_of, texts};

verus! {

/// The styles in which names are shown.
#[derive(Clone, Copy, Debug, PartialEq, Eq, Structural)]
pub enum ColorStyle {
    BoldGreen,
    BlueBold,
    BoldYellow,
    CyanBold,
    BoldRed,
    BoldMagenta,
    BrightWhite,
}

/// The escape character, which starts every control sequence of the
/// terminal.
pub open spec fn escape() -> char {
    '\x1b'
}

/// Whether `shown` is `text` in some style: `text` itself, or `text`
/// between a control sequence that sets the style and the one that resets
/// it.
pub open spec fn styled(text: Seq<char>, shown: Seq<char>) -> bool {
    shown == text || exists|style: Seq<char>|
        shown == style + text + seq![escape(), '[', '0', 'm']
}

/// `Colorize::green` and `Colorize::bold`, then the text as it is
/// displayed.  Whether colours come out depends on the process; either way
/// a text without an escape character comes out whole, alone or between
/// the sequence for the style and the reset sequence.
#[verifier::external_body]
fn bold_green(text: &str) -> (shown: String)
    ensures
        !text@.contains(escape()) ==> styled(text@, shown@),
{
    text.green().bold().to_string()
}

/// `Colorize::blue` and `Colorize::bold`, then the text as it is displayed: a
/// text without an escape character comes out whole, alone or between the
/// sequence for the style and the reset sequence.
#[verifier::external_body]
fn blue_bold(text: &str) -> (shown: String)
    ensures
        !text@.contains(escape()) ==> styled(text@, shown@),
{
    text.blue().bold().to_string()
}

/// `Colorize::yellow` and `Colorize::bold`, then the text as it is displayed:
/// a text without an escape character comes out whole, alone or between the
/// sequence for the style and the reset sequence.
#[verifier::external_body]
fn bold_yellow(text: &str) -> (shown: String)
    ensures
        !text@.contains(escape()) ==> styled(text@, shown@),
{
    text.yellow().bold().to_string()
}

/// `Colorize::cyan` and `Colorize::bold`, then the text as it is displayed: a
/// text without an escape character comes out whole, alone or between the
/// sequence for the style and the reset sequence.
#[verifier::external_body]
fn cyan_bold(text: &str) -> (shown: String)
    ensures
        !text@.contains(escape()) ==> styled(text@, shown@),
{
    text.cyan().bold().to_string()
}

/// `Colorize::red` and `Colorize::bold`, then the text as it is displayed: a
/// text without an escape character comes out whole, alone or between the
/// sequence for the style and the reset sequence.
#[verifier::external_body]
fn bold_red(text: &str) -> (shown: String)
    ensures
        !text@.contains(escape()) ==> styled(text@, shown@),
{
    text.red().bold().to_string()
}

/// `Colorize::magenta` and `Colorize::bold`, then the text as it is displayed:
/// a text without an escape character comes out whole, alone or between the
/// sequence for the style and the reset sequence.
#[verifier::external_body]
fn bold_magenta(text: &str) -> (shown: String)
    ensures
        !text@.contains(escape()) ==> styled(text@, shown@),
{
    text.magenta().bold().to_string()
}

/// `Colorize::bright_white`, then the text as it is displayed: a text without
/// an escape character comes out whole, alone or between the sequence for the
/// style and the reset sequence.
#[verifier::external_body]
fn bright_white(text: &str) -> (shown: String)
    ensures
        !text@.contains(escape()) ==> styled(text@, shown@),
{
    text.bright_white().to_string()
}

/// `result` in the style `style`, as the terminal is to show it.  Where
/// colours are switched off for the process this is `result` itself.
pub fn apply_color(result: &str, style: ColorStyle) -> (shown: String)
    ensures
        !result@.contains(escape()) ==> styled(result@, shown@),
{
    match style {
        ColorStyle::BoldGreen => bold_green(result),
        ColorStyle::BlueBold => blue_bold(result),
        ColorStyle::BoldYellow => bold_yellow(result),
        ColorStyle::CyanBold => cyan_bold(result),
        ColorStyle::BoldRed => bold_red(result),
        ColorStyle::BoldMagenta => bold_magenta(result),
        ColorStyle::BrightWhite => bright_white(result),
    }
}

/// The length of `text` in bytes, in UTF-8, as `str::len` gives it.
pub open spec fn byte_len(text: Seq<char>) -> usize {
    vstd::utf8::encode_utf8(text).len() as usize
}

/// Whether the rows of `matrix` all have at least as many columns as the
/// first.
pub open spec fn rows_cover_first(matrix: Seq<Vec<String>>) -> bool {
    forall|j: int| 0 <= j < matrix.len() ==> (#[trigger] matrix[j]).len() >= matrix[0].len()
}

/// The length in bytes of the longest cell of column `i` among the first
/// `rows` rows of `matrix`.
pub open spec fn column_len(matrix: Seq<Vec<String>>, i: int, rows: int) -> usize
    decreases rows,
{
    if rows <= 0 {
        0
    } else {
        let before = column_len(matrix, i, rows - 1);
        let here = byte_len(matrix[rows - 1][i]@);
        if before < here {
            here
        } else {
            before
        }
    }
}

/// For each column of the first row of `matrix`, the length in bytes of
/// its longest cell.  An empty matrix has no column.
pub fn get_column_len(matrix: &Vec<Vec<String>>) -> (widths: Vec<usize>)
    requires
        rows_cover_first(matrix@),
    ensures
        matrix@.len() == 0 ==> widths@.len() == 0,
        matrix@.len() > 0 ==> widths@.len() == matrix@[0].len(),
        forall|i: int|
            0 <= i < widths@.len() ==> (#[trigger] widths@[i]) == column_len(
                matrix@,
                i,
                matrix@.len() as int,
            ),
{
    let mut widths: Vec<usize> = Vec::new();
    if matrix.len() != 0 {
        let columns = matrix[0].len();
        let mut i: usize = 0;
        while i < columns
            invariant
                i <= columns,
                matrix@.len() > 0,
                columns == matrix@[0].len(),
                rows_cover_first(matrix@),
                widths@.len() == i,
                forall|k: int|
                    0 <= k < i ==> (#[trigger] widths@[k]) == column_len(
                        matrix@,
                        k,
                        matrix@.len() as int,
                    ),
            decreases columns - i,
        {
            let mut max: usize = 0;
            let mut j: usize = 0;
            while j < matrix.len()
                invariant
                    j <= matrix.len(),
                    i < columns,
                    columns == matrix@[0].len(),
                    rows_cover_first(matrix@),
                    max == column_len(matrix@, i as int, j as int),
                decreases matrix.len() - j,
            {
                assert(matrix@[j as int].len() >= matrix@[0].len());
                let cell = matrix[j][i].as_str();
                let here = cell.len();
                assert(cell@ == matrix@[j as int][i as int]@);
                assert(here == byte_len(matrix@[j as int][i as int]@));
                if max < here {
                    max = here;
                }
                j = j + 1;
            }
            widths.push(max);
            i = i + 1;
        }
    }
    widths
}

/// Whether `ch` is ASCII punctuation: one of
/// ``! " # $ % & ' ( ) * + , - . /``, ``: ; < = > ? @``,
/// ``[ \ ] ^ _ ` `` and `{ | } ~`.
pub open spec fn is_punctuation(ch: char) -> bool {
    let code = ch as u32;
    (0x21 <= code <= 0x2f) || (0x3a <= code <= 0x40) || (0x5b <= code <= 0x60) || (0x7b <= code
        <= 0x7e)
}

/// `ch` in lower case if it is an ASCII capital letter, else `ch`.
pub open spec fn lower(ch: char) -> char {
    let code = ch as u32;
    if 0x41 <= code <= 0x5a {
        ((code + 32) as u8) as char
    } else {
        ch
    }
}

/// The key by which a name is ordered: the name without ASCII
/// punctuation, in ASCII lower case.
pub open spec fn sort_key(name: Seq<char>) -> Seq<char>
    decreases name.len(),
{
    if name.len() == 0 {
        Seq::empty()
    } else if is_punctuation(name.last()) {
        sort_key(name.drop_last())
    } else {
        sort_key(name.drop_last()).push(lower(name.last()))
    }
}

/// `name` in ASCII lower case.
pub open spec fn lower_key(name: Seq<char>) -> Seq<char> {
    Seq::new(name.len(), |i: int| lower(name[i]))
}

/// Whether `a` comes before `b`, or is `b`, in the order of the dictionary
/// by the numbers of the characters: the order of `str`.
pub open spec fn key_le(a: Seq<char>, b: Seq<char>) -> bool
    decreases a.len(),
{
    if a.len() == 0 {
        true
    } else if b.len() == 0 {
        false
    } else if (a[0] as u32) < (b[0] as u32) {
        true
    } else if (b[0] as u32) < (a[0] as u32) {
        false
    } else {
        key_le(a.skip(1), b.skip(1))
    }
}

/// `sorted` with `item` put in after every entry whose key comes before
/// the key of `item` or is the same.
pub open spec fn insert_sorted(
    sorted: Seq<(Seq<char>, Seq<char>)>,
    item: (Seq<char>, Seq<char>),
) -> Seq<(Seq<char>, Seq<char>)>
    decreases sorted.len(),
{
    if sorted.len() == 0 {
        seq![item]
    } else if key_le(sorted.last().0, item.0) {
        sorted.push(item)
    } else {
        insert_sorted(sorted.drop_last(), item).push(sorted.last())
    }
}

/// The pairs of keys and values `items` in the order of their keys; pairs
/// with the same key stay in the order in which they came.
pub open spec fn stable_sort(items: Seq<(Seq<char>, Seq<char>)>) -> Seq<(Seq<char>, Seq<char>)>
    decreases items.len(),
{
    if items.len() == 0 {
        Seq::empty()
    } else {
        insert_sorted(stable_sort(items.drop_last()), items.last())
    }
}

/// The values of a sequence of pairs.
pub open spec fn values_of(items: Seq<(Seq<char>, Seq<char>)>) -> Seq<Seq<char>> {
    Seq::new(items.len(), |i: int| items[i].1)
}

/// The names `names`, each with its sort key.
pub open spec fn keyed(names: Seq<Seq<char>>) -> Seq<(Seq<char>, Seq<char>)> {
    Seq::new(names.len(), |i: int| (sort_key(names[i]), names[i]))
}

/// The names `names`, each with itself in ASCII lower case.
pub open spec fn lower_keyed(names: Seq<Seq<char>>) -> Seq<(Seq<char>, Seq<char>)> {
    Seq::new(names.len(), |i: int| (lower_key(names[i]), names[i]))
}

/// The views of a list of pairs.
pub open spec fn pair_views(pairs: Seq<(Vec<char>, String)>) -> Seq<(Seq<char>, Seq<char>)> {
    Seq::new(pairs.len(), |i: int| (pairs[i].0@, pairs[i].1@))
}

/// Whether `ch` is ASCII punctuation.
pub fn punctuation(ch: char) -> (yes: bool)
    ensures
        yes == is_punctuation(ch),
{
    let code = ch as u32;
    (0x21 <= code && code <= 0x2f) || (0x3a <= code && code <= 0x40) || (0x5b <= code && code
        <= 0x60) || (0x7b <= code && code <= 0x7e)
}

/// `ch` in ASCII lower case.
pub fn lower_char(ch: char) -> (low: char)
    ensures
        low == lower(ch),
{
    let code = ch as u32;
    if 0x41 <= code && code <= 0x5a {
        ((code + 32) as u8) as char
    } else {
        ch
    }
}

/// Computes [`key_le`].
pub fn key_before(a: &Vec<char>, b: &Vec<char>) -> (le: bool)
    ensures
        le == key_le(a@, b@),
{
    let mut i: usize = 0;
    assert(a@.skip(0) == a@);
    assert(b@.skip(0) == b@);
    while i < a.len() && i < b.len() && (a[i] as u32) == (b[i] as u32)
        invariant
            i <= a.len(),
            i <= b.len(),
            key_le(a@, b@) == key_le(a@.skip(i as int), b@.skip(i as int)),
        decreases a.len() - i,
    {
        assert(a@.skip(i as int)[0] == a@[i as int]);
        assert(b@.skip(i as int)[0] == b@[i as int]);
        assert(a@.skip(i as int).skip(1) == a@.skip(i + 1));
        assert(b@.skip(i as int).skip(1) == b@.skip(i + 1));
        i = i + 1;
    }
    if i >= a.len() {
        true
    } else if i >= b.len() {
        false
    } else {
        assert(a@.skip(i as int)[0] == a@[i as int]);
        assert(b@.skip(i as int)[0] == b@[i as int]);
        (a[i] as u32) < (b[i] as u32)
    }
}

/// Putting an item in from the end: it lands after the last entry that
/// does not come after it.
proof fn lemma_insert_at(
    sorted: Seq<(Seq<char>, Seq<char>)>,
    item: (Seq<char>, Seq<char>),
    p: int,
)
    requires
        0 <= p <= sorted.len(),
        forall|k: int| p <= k < sorted.len() ==> !key_le(#[trigger] sorted[k].0, item.0),
        p > 0 ==> key_le(sorted[p - 1].0, item.0),
    ensures
        insert_sorted(sorted, item) == sorted.take(p).push(item) + sorted.skip(p),
    decreases sorted.len() - p,
{
    if sorted.len() == 0 {
        assert(sorted.take(p).push(item) + sorted.skip(p) =~= seq![item]);
    } else if p == sorted.len() {
        assert(sorted.take(p).push(item) + sorted.skip(p) =~= sorted.push(item));
    } else {
        let shorter = sorted.drop_last();
        assert(!key_le(sorted[sorted.len() - 1].0, item.0));
        assert forall|k: int| p <= k < shorter.len() implies !key_le(
            #[trigger] shorter[k].0,
            item.0,
        ) by {
            assert(shorter[k] == sorted[k]);
        }
        if p > 0 {
            assert(shorter[p - 1] == sorted[p - 1]);
        }
        lemma_insert_at(shorter, item, p);
        assert((shorter.take(p).push(item) + shorter.skip(p)).push(sorted.last()) =~= sorted.take(
            p,
        ).push(item) + sorted.skip(p));
    }
}

/// Sorts pairs of keys and values by their keys, keeping pairs with the
/// same key in the order in which they came.
pub fn sort_pairs(pairs: Vec<(Vec<char>, String)>) -> (sorted: Vec<(Vec<char>, String)>)
    ensures
        pair_views(sorted@) == stable_sort(pair_views(pairs@)),
{
    let ghost all = pair_views(pairs@);
    let mut sorted: Vec<(Vec<char>, String)> = Vec::new();
    let mut pairs = pairs;
    let mut i: usize = 0;
    let n = pairs.len();
    let ghost rest = pairs@;
    assert(all.take(0) =~= Seq::empty());
    assert(pair_views(sorted@) =~= Seq::empty());
    while pairs.len() > 0
        invariant
            i + pairs.len() == n,
            n == all.len(),
            pair_views(pairs@) == all.skip(i as int),
            pair_views(sorted@) == stable_sort(all.take(i as int)),
        decreases pairs.len(),
    {
        let ghost remaining = pair_views(pairs@);
        let ghost before = pairs@;
        let ghost done = pair_views(sorted@);
        let item = pairs.remove(0);
        let ghost item_view = (item.0@, item.1@);
        assert(remaining[0] == (before[0].0@, before[0].1@));
        assert(remaining[0] == item_view);
        assert(item_view == all[i as int]);
        assert forall|k: int| 0 <= k < pairs@.len() implies pair_views(pairs@)[k] == all.skip(
            i + 1,
        )[k] by {
            assert(pairs@[k] == before[k + 1]);
            assert(remaining[k + 1] == (before[k + 1].0@, before[k + 1].1@));
            assert(remaining[k + 1] == all[i + k + 1]);
        }
        assert(pair_views(pairs@) =~= all.skip(i + 1));
        let mut p: usize = sorted.len();
        while p > 0 && !key_before(&sorted[p - 1].0, &item.0)
            invariant
                p <= sorted.len(),
                done == pair_views(sorted@),
                item_view == (item.0@, item.1@),
                forall|k: int| p <= k < done.len() ==> !key_le(#[trigger] done[k].0, item_view.0),
            decreases p,
        {
            assert(done[p - 1] == (sorted@[p - 1].0@, sorted@[p - 1].1@));
            p = p - 1;
        }
        proof {
            if p > 0 {
                assert(done[p - 1] == (sorted@[p - 1].0@, sorted@[p - 1].1@));
            }
            lemma_insert_at(done, item_view, p as int);
            assert(all.take(i + 1).drop_last() =~= all.take(i as int));
            assert(all.take(i + 1).last() == item_view);
        }
        sorted.insert(p, item);
        assert(pair_views(sorted@) =~= done.take(p as int).push(item_view) + done.skip(p as int));
        i = i + 1;
    }
    assert(all.take(i as int) =~= all);
    sorted
}

/// Computes [`sort_key`].
pub fn key_of(name: &str) -> (key: Vec<char>)
    ensures
        key@ == sort_key(name@),
{
    let chars = chars_of(name);
    let mut key: Vec<char> = Vec::new();
    let mut i: usize = 0;
    assert(chars@.take(0) =~= Seq::<char>::empty());
    while i < chars.len()
        invariant
            i <= chars.len(),
            chars@ == name@,
            key@ == sort_key(chars@.take(i as int)),
        decreases chars.len() - i,
    {
        assert(chars@.take(i + 1).drop_last() =~= chars@.take(i as int));
        assert(chars@.take(i + 1).last() == chars@[i as int]);
        if !punctuation(chars[i]) {
            key.push(lower_char(chars[i]));
        }
        i = i + 1;
    }
    assert(chars@.take(i as int) =~= chars@);
    key
}

/// Computes [`lower_key`].
pub fn lower_key_of(name: &str) -> (key: Vec<char>)
    ensures
        key@ == lower_key(name@),
{
    let chars = chars_of(name);
    let mut key: Vec<char> = Vec::new();
    let mut i: usize = 0;
    while i < chars.len()
        invariant
            i <= chars.len(),
            chars@ == name@,
            key@.len() == i,
            forall|k: int| 0 <= k < i ==> key@[k] == lower(chars@[k]),
        decreases chars.len() - i,
    {
        key.push(lower_char(chars[i]));
        i = i + 1;
    }
    assert(key@ =~= lower_key(name@));
    key
}

/// The values of sorted pairs, as a list of names.
pub fn names_of(pairs: Vec<(Vec<char>, String)>) -> (names: Vec<String>)
    ensures
        texts(names@) == values_of(pair_views(pairs@)),
{
    let ghost all = pair_views(pairs@);
    let mut names: Vec<String> = Vec::new();
    let mut i: usize = 0;
    while i < pairs.len()
        invariant
            i <= pairs.len(),
            all == pair_views(pairs@),
            names@.len() == i,
            forall|k: int| 0 <= k < i ==> names@[k]@ == all[k].1,
        decreases pairs.len() - i,
    {
        names.push(pairs[i].1.clone());
        i = i + 1;
    }
    assert(texts(names@) =~= values_of(all));
    names
}

/// Sorts names by their sort keys: without regard to ASCII punctuation
/// and to the case of ASCII letters.  Names with the same key stay in the
/// order in which they came.
pub fn sort_entries(files: &mut Vec<String>)
    ensures
        texts(final(files)@) == values_of(stable_sort(keyed(texts(old(files)@)))),
{
    let ghost names = texts(files@);
    let mut pairs: Vec<(Vec<char>, String)> = Vec::new();
    let mut i: usize = 0;
    while i < files.len()
        invariant
            i <= files.len(),
            files@ == old(files)@,
            names == texts(files@),
            pairs@.len() == i,
            forall|k: int|
                0 <= k < i ==> (#[trigger] pairs@[k]).0@ == sort_key(names[k]) && pairs@[k].1@
                    == names[k],
        decreases files.len() - i,
    {
        let key = key_of(files[i].as_str());
        pairs.push((key, files[i].clone()));
        i = i + 1;
    }
    assert(pair_views(pairs@) =~= keyed(names));
    let sorted = sort_pairs(pairs);
    *files = names_of(sorted);
}

/// Sorts names without regard to the case of ASCII letters.  Names that
/// differ in case only stay in the order in which they came.
pub fn sort_lower(names: Vec<String>) -> (sorted: Vec<String>)
    ensures
        texts(sorted@) == values_of(stable_sort(lower_keyed(texts(names@)))),
{
    let ghost all = texts(names@);
    let mut pairs: Vec<(Vec<char>, String)> = Vec::new();
    let mut i: usize = 0;
    while i < names.len()
        invariant
            i <= names.len(),
            all == texts(names@),
            pairs@.len() == i,
            forall|k: int|
                0 <= k < i ==> (#[trigger] pairs@[k]).0@ == lower_key(all[k]) && pairs@[k].1@
                    == all[k],
        decreases names.len() - i,
    {
        let key = lower_key_of(names[i].as_str());
        pairs.push((key, names[i].clone()));
        i = i + 1;
    }
    assert(pair_views(pairs@) =~= lower_keyed(all));
    names_of(sort_pairs(pairs))
}

/// Whether the keys of `items` never go down from one entry to the next.
pub open spec fn in_order(items: Seq<(Seq<char>, Seq<char>)>) -> bool {
    forall|i: int| 0 <= i < items.len() - 1 ==> key_le(#[trigger] items[i].0, items[i + 1].0)
}

/// Of two keys one comes before the other, or they are the same.
pub proof fn lemma_key_le_total(a: Seq<char>, b: Seq<char>)
    ensures
        key_le(a, b) || key_le(b, a),
    decreases a.len(),
{
    if a.len() > 0 && b.len() > 0 && (a[0] as u32) == (b[0] as u32) {
        lemma_key_le_total(a.skip(1), b.skip(1));
    }
}

/// Putting an item into a sequence that is in order leaves it in order,
/// and adds that item and nothing else.
pub proof fn lemma_insert_sorted(sorted: Seq<(Seq<char>, Seq<char>)>, item: (Seq<char>, Seq<char>))
    requires
        in_order(sorted),
    ensures
        in_order(insert_sorted(sorted, item)),
        insert_sorted(sorted, item).len() == sorted.len() + 1,
        insert_sorted(sorted, item).to_multiset() == sorted.to_multiset().insert(item),
        insert_sorted(sorted, item).last() == item || (sorted.len() > 0 && insert_sorted(
            sorted,
            item,
        ).last() == sorted.last()),
    decreases sorted.len(),
{
    broadcast use vstd::seq_lib::group_to_multiset_ensures;

    let after = insert_sorted(sorted, item);
    if sorted.len() == 0 {
        assert(sorted =~= Seq::empty());
        assert(after =~= Seq::empty().push(item));
    } else if key_le(sorted.last().0, item.0) {
        assert forall|i: int| 0 <= i < after.len() - 1 implies key_le(
            #[trigger] after[i].0,
            after[i + 1].0,
        ) by {
            if i < sorted.len() - 1 {
                assert(key_le(sorted[i].0, sorted[i + 1].0));
            }
        }
    } else {
        let shorter = sorted.drop_last();
        assert forall|i: int| 0 <= i < shorter.len() - 1 implies key_le(
            #[trigger] shorter[i].0,
            shorter[i + 1].0,
        ) by {
            assert(key_le(sorted[i].0, sorted[i + 1].0));
        }
        lemma_insert_sorted(shorter, item);
        lemma_key_le_total(sorted.last().0, item.0);
        let inner = insert_sorted(shorter, item);
        assert(after == inner.push(sorted.last()));
        assert(key_le(inner.last().0, sorted.last().0)) by {
            if inner.last() != item {
                assert(inner.last() == shorter.last());
                assert(key_le(sorted[sorted.len() - 2].0, sorted[sorted.len() - 2 + 1].0));
            }
        }
        assert forall|i: int| 0 <= i < after.len() - 1 implies key_le(
            #[trigger] after[i].0,
            after[i + 1].0,
        ) by {
            if i < inner.len() - 1 {
                assert(key_le(inner[i].0, inner[i + 1].0));
            }
        }
        assert(sorted =~= shorter.push(sorted.last()));
        assert(shorter.to_multiset().insert(item).insert(sorted.last()) =~= shorter.to_multiset().insert(
            sorted.last(),
        ).insert(item));
    }
}

/// Sorting puts the pairs in the order of their keys and neither adds nor
/// loses one.
pub proof fn lemma_stable_sort(items: Seq<(Seq<char>, Seq<char>)>)
    ensures
        in_order(stable_sort(items)),
        stable_sort(items).len() == items.len(),
        stable_sort(items).to_multiset() == items.to_multiset(),
    decreases items.len(),
{
    broadcast use vstd::seq_lib::group_to_multiset_ensures;

    if items.len() == 0 {
        assert(items =~= Seq::empty());
    } else {
        lemma_stable_sort(items.drop_last());
        lemma_insert_sorted(stable_sort(items.drop_last()), items.last());
        assert(items =~= items.drop_last().push(items.last()));
    }
}

/// Whether the contents of an operand are listed: it is a directory, or
/// it is a link that leads to a directory and neither `-l` nor `-F` is
/// given.  `leads_to_dir` says whether the operand, links followed, is a
/// directory.
pub fn is_directory(found: Found, leads_to_dir: bool, ls_config: &LsConfig) -> (yes: bool)
    ensures
        yes == ((found.is_dir && !found.is_symlink) || (found.is_symlink && leads_to_dir
            && !found.broken && !ls_config.l_flag_set && !ls_config.f_flag_set)),
{
    if found.is_dir && !found.is_symlink {
        return true;
    }
    found.is_symlink && leads_to_dir && !found.broken && !ls_config.l_flag_set
        && !ls_config.f_flag_set
}

/// Whether an operand is listed as it is: it is a link and `-l` or `-F`
/// is given or it does not lead to a directory, or it is a regular file,
/// or, links followed, it is no directory.
pub fn is_file(found: Found, leads_to_dir: bool, ls_config: &LsConfig) -> (yes: bool)
    ensures
        yes == ((found.is_symlink && (ls_config.l_flag_set || ls_config.f_flag_set || found.broken
            || !leads_to_dir)) || found.is_file || !leads_to_dir),
{
    if found.is_symlink {
        if ls_config.l_flag_set || ls_config.f_flag_set || found.broken || !leads_to_dir {
            return true;
        }
    }
    found.is_file || !leads_to_dir
}

} // verus!
