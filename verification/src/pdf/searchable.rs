//! The searchable text layer: character codes, encoded text and the map back to Unicode.

use crate::error::{invalid, other, outcome_view, Failure, ScanError};
use crate::processing::smaller;
use crate::text::{chars_of, contains_text, decimal, push_decimal, strings};
use vstd::prelude::*;
use vstd::string::{StrSliceExecFns, StringExecFns};
use vstd::utf8::encode_utf8;

verus! {

// ---------------------------------------------------------------------------
// Character codes
// ---------------------------------------------------------------------------

/// Whether characters stand in strictly increasing order.
pub open spec fn is_increasing(table: Seq<char>) -> bool {
    forall|i: int, j: int| 0 <= i < j < table.len() ==> table[i] < table[j]
}

/// Whether a character occurs in one of the texts.
pub open spec fn occurs(texts: Seq<Seq<char>>, c: char) -> bool {
    exists|i: int| 0 <= i < texts.len() && (#[trigger] texts[i]).contains(c)
}

/// Whether a table lists exactly the characters of the texts, in order and each once.
pub open spec fn is_table_of(table: Seq<char>, texts: Seq<Seq<char>>) -> bool {
    &&& is_increasing(table)
    &&& forall|c: char| #[trigger] table.contains(c) <==> occurs(texts, c)
}

/// The characters of the texts, in order and each once.
pub open spec fn table_of(texts: Seq<Seq<char>>) -> Seq<char> {
    choose|table: Seq<char>| is_table_of(table, texts)
}

/// Two increasing tables of the same characters are equal.
pub proof fn lemma_same_table(a: Seq<char>, b: Seq<char>)
    requires
        is_increasing(a),
        is_increasing(b),
        forall|c: char| #[trigger] a.contains(c) <==> b.contains(c),
    ensures
        a == b,
    decreases a.len(),
{
    if a.len() == 0 {
        if b.len() > 0 {
            assert(b.contains(b[0]));
            assert(a.contains(b[0]));
        }
        assert(a =~= b);
    } else {
        assert(a.contains(a.last()));
        assert(b.contains(a.last()));
        let at = choose|k: int| 0 <= k < b.len() && b[k] == a.last();
        assert(b.contains(b.last()));
        assert(a.contains(b.last()));
        let from = choose|k: int| 0 <= k < a.len() && a[k] == b.last();
        if at < b.len() - 1 {
            assert(b[at] < b[b.len() - 1]);
        }
        if from < a.len() - 1 {
            assert(a[from] < a[a.len() - 1]);
        }
        assert(a.last() == b.last());
        let p = a.drop_last();
        let q = b.drop_last();
        assert forall|c: char| #[trigger] p.contains(c) <==> q.contains(c) by {
            if p.contains(c) {
                let k = choose|k: int| 0 <= k < p.len() && p[k] == c;
                assert(a[k] == c);
                assert(b.contains(c)) by {
                    assert(a.contains(c));
                }
                let m = choose|m: int| 0 <= m < b.len() && b[m] == c;
                assert(a[k] < a[a.len() - 1]);
                assert(q[m] == c);
            }
            if q.contains(c) {
                let k = choose|k: int| 0 <= k < q.len() && q[k] == c;
                assert(b[k] == c);
                assert(a.contains(c)) by {
                    assert(b.contains(c));
                }
                let m = choose|m: int| 0 <= m < a.len() && a[m] == c;
                assert(b[k] < b[b.len() - 1]);
                assert(p[m] == c);
            }
        }
        lemma_same_table(p, q);
        assert(a =~= p.push(a.last()));
        assert(b =~= q.push(b.last()));
    }
}

/// A table of the texts is the table of the texts.
pub proof fn lemma_table(table: Seq<char>, texts: Seq<Seq<char>>)
    requires
        is_table_of(table, texts),
    ensures
        table == table_of(texts),
{
    let t = table_of(texts);
    assert(is_table_of(t, texts));
    assert forall|c: char| #[trigger] table.contains(c) <==> t.contains(c) by {
        assert(t.contains(c) <==> occurs(texts, c));
    }
    lemma_same_table(table, t);
}

/// An increasing table with one more character, where it lacks it.
spec fn with_character(table: Seq<char>, c: char) -> Seq<char>
    decreases table.len(),
{
    if table.len() == 0 || table.last() < c {
        table.push(c)
    } else if table.last() == c {
        table
    } else {
        with_character(table.drop_last(), c).push(table.last())
    }
}

proof fn lemma_with_character(table: Seq<char>, c: char)
    requires
        is_increasing(table),
    ensures
        is_increasing(with_character(table, c)),
        forall|d: char| #[trigger]
            with_character(table, c).contains(d) <==> table.contains(d) || d == c,
        with_character(table, c).len() > 0,
        with_character(table, c).last() == (if table.len() == 0 || table.last() < c {
            c
        } else {
            table.last()
        }),
    decreases table.len(),
{
    let longer = with_character(table, c);
    if table.len() == 0 || table.last() < c {
        assert forall|d: char| #[trigger] longer.contains(d) <==> table.contains(d) || d == c by {
            if table.contains(d) {
                let k = choose|k: int| 0 <= k < table.len() && table[k] == d;
                assert(longer[k] == d);
            }
            assert(longer[table.len() as int] == c);
            if longer.contains(d) {
                let k = choose|k: int| 0 <= k < longer.len() && longer[k] == d;
                if k < table.len() {
                    assert(table[k] == d);
                }
            }
        }
    } else if table.last() == c {
        assert(table[table.len() - 1] == c);
    } else {
        let head = table.drop_last();
        let last = table.last();
        lemma_with_character(head, c);
        let inner = with_character(head, c);
        if head.len() > 0 {
            assert(head.last() < last);
        }
        assert(inner.last() < last);
        assert forall|i: int, j: int| 0 <= i < j < longer.len() implies longer[i] < longer[j] by {
            if j == inner.len() && i < inner.len() - 1 {
                assert(inner[i] < inner[inner.len() - 1]);
            }
        }
        assert forall|d: char| #[trigger] longer.contains(d) <==> table.contains(d) || d == c by {
            if longer.contains(d) {
                let k = choose|k: int| 0 <= k < longer.len() && longer[k] == d;
                if k < inner.len() {
                    assert(inner[k] == d);
                    assert(inner.contains(d));
                    if head.contains(d) {
                        let m = choose|m: int| 0 <= m < head.len() && head[m] == d;
                        assert(table[m] == d);
                    }
                } else {
                    assert(table[table.len() - 1] == d);
                }
            }
            if table.contains(d) {
                let k = choose|k: int| 0 <= k < table.len() && table[k] == d;
                if k < head.len() {
                    assert(head[k] == d);
                    assert(inner.contains(d));
                    let m = choose|m: int| 0 <= m < inner.len() && inner[m] == d;
                    assert(longer[m] == d);
                } else {
                    assert(longer[longer.len() - 1] == d);
                }
            }
            if d == c {
                assert(inner.contains(c));
                let m = choose|m: int| 0 <= m < inner.len() && inner[m] == c;
                assert(longer[m] == c);
            }
        }
    }
}

/// The increasing table of the characters of a text and of a table.
proof fn lemma_with_text(table: Seq<char>, text: Seq<char>) -> (r: Seq<char>)
    requires
        is_increasing(table),
    ensures
        is_increasing(r),
        forall|d: char| #[trigger] r.contains(d) <==> table.contains(d) || text.contains(d),
    decreases text.len(),
{
    if text.len() == 0 {
        table
    } else {
        let head = text.drop_last();
        let c = text.last();
        let inner = lemma_with_text(table, head);
        lemma_with_character(inner, c);
        let r = with_character(inner, c);
        assert forall|d: char| #[trigger] r.contains(d) <==> table.contains(d) || text.contains(
            d,
        ) by {
            assert(inner.contains(d) <==> table.contains(d) || head.contains(d));
            if head.contains(d) {
                let k = choose|k: int| 0 <= k < head.len() && head[k] == d;
                assert(text[k] == d);
            }
            assert(text[text.len() - 1] == c);
            if text.contains(d) {
                let k = choose|k: int| 0 <= k < text.len() && text[k] == d;
                if k < head.len() {
                    assert(head[k] == d);
                }
            }
        }
        r
    }
}

proof fn lemma_some_table(texts: Seq<Seq<char>>) -> (r: Seq<char>)
    ensures
        is_table_of(r, texts),
    decreases texts.len(),
{
    if texts.len() == 0 {
        let r = Seq::<char>::empty();
        assert(is_table_of(r, texts));
        r
    } else {
        let head = texts.drop_last();
        let text = texts.last();
        let inner = lemma_some_table(head);
        let r = lemma_with_text(inner, text);
        assert forall|d: char| #[trigger] r.contains(d) <==> occurs(texts, d) by {
            assert(inner.contains(d) <==> occurs(head, d));
            if occurs(head, d) {
                let k = choose|k: int| 0 <= k < head.len() && (#[trigger] head[k]).contains(d);
                assert(texts[k].contains(d));
            }
            if text.contains(d) {
                assert(texts[texts.len() - 1].contains(d));
            }
            if occurs(texts, d) {
                let k = choose|k: int| 0 <= k < texts.len() && (#[trigger] texts[k]).contains(d);
                if k < head.len() {
                    assert(head[k].contains(d));
                }
            }
        }
        r
    }
}

/// Every texts have a table: it lists exactly their characters, in order and each once.
pub proof fn tables_list_the_characters_of_texts(texts: Seq<Seq<char>>)
    ensures
        is_increasing(table_of(texts)),
        forall|c: char| #[trigger]
            table_of(texts).contains(c) <==> exists|i: int|
                0 <= i < texts.len() && (#[trigger] texts[i]).contains(c),
{
    let table = lemma_some_table(texts);
    assert(is_table_of(table, texts));
    assert(is_table_of(table_of(texts), texts));
    assert forall|c: char| #[trigger]
        table_of(texts).contains(c) <==> exists|i: int|
            0 <= i < texts.len() && (#[trigger] texts[i]).contains(c) by {
        assert(table_of(texts).contains(c) <==> occurs(texts, c));
    }
}

/// Where a character stands, or belongs, in an increasing table.
fn slot(table: &Vec<char>, c: char) -> (r: usize)
    requires
        is_increasing(table@),
    ensures
        r <= table@.len(),
        forall|i: int| 0 <= i < r ==> table@[i] < c,
        forall|i: int| r <= i < table@.len() ==> c <= table@[i],
{
    let mut low: usize = 0;
    let mut high: usize = table.len();
    while low < high
        invariant
            low <= high <= table@.len(),
            is_increasing(table@),
            forall|i: int| 0 <= i < low ==> table@[i] < c,
            forall|i: int| high <= i < table@.len() ==> c <= table@[i],
        decreases high - low,
    {
        let mid: usize = low + (high - low) / 2;
        if table[mid] < c {
            low = mid + 1;
        } else {
            high = mid;
        }
    }
    low
}

/// Puts a character into an increasing table that lacks it.
fn add_character(table: &mut Vec<char>, c: char)
    requires
        is_increasing(old(table)@),
    ensures
        is_increasing(final(table)@),
        forall|d: char| #[trigger]
            final(table)@.contains(d) <==> old(table)@.contains(d) || d == c,
{
    let at = slot(table, c);
    let ghost before = table@;
    if at < table.len() && table[at] == c {
        assert(before[at as int] == c);
        return;
    }
    table.insert(at, c);
    proof {
        assert(table@ == before.insert(at as int, c));
        assert(table@[at as int] == c);
        assert forall|d: char| #[trigger] table@.contains(d) implies before.contains(d) || d
            == c by {
            let k = choose|k: int| 0 <= k < table@.len() && table@[k] == d;
            if k < at {
                assert(before[k] == d);
            } else if k > at {
                assert(before[k - 1] == d);
            }
        }
        assert forall|d: char| before.contains(d) implies #[trigger] table@.contains(d) by {
            let k = choose|k: int| 0 <= k < before.len() && before[k] == d;
            if k < at {
                assert(table@[k] == d);
            } else {
                assert(table@[k + 1] == d);
            }
        }
    }
}

/// Most character codes that two bytes can tell apart beside the code zero.
pub const MAX_CHARACTER_CODES: usize = 65_535;

/// The error of text with too many different characters.
pub open spec fn too_many_characters() -> Failure {
    Failure::Invalid("searchable PDF text has more than 65,535 distinct Unicode characters"@)
}

/// The characters of all texts, in order and each once; the code of a character is its place,
/// counted from one.
pub fn character_codes(texts: &Vec<String>) -> (r: Result<Vec<char>, ScanError>)
    ensures
        is_table_of(table_of(strings(texts@)), strings(texts@)),
        outcome_view(r) == (if table_of(strings(texts@)).len() > MAX_CHARACTER_CODES {
            Err(too_many_characters())
        } else {
            Ok(table_of(strings(texts@)))
        }),
{
    let ghost all = strings(texts@);
    let mut table: Vec<char> = Vec::new();
    let mut i: usize = 0;
    assert(all.take(0) =~= Seq::<Seq<char>>::empty());
    while i < texts.len()
        invariant
            i <= texts@.len(),
            all == strings(texts@),
            is_table_of(table@, all.take(i as int)),
        decreases texts@.len() - i,
    {
        let chars = chars_of(texts[i].as_str());
        assert(chars@ == all[i as int]);
        let ghost before = table@;
        let mut j: usize = 0;
        while j < chars.len()
            invariant
                j <= chars@.len(),
                is_increasing(table@),
                forall|d: char| #[trigger]
                    table@.contains(d) <==> before.contains(d) || chars@.take(j as int).contains(d),
            decreases chars@.len() - j,
        {
            let ghost inner = table@;
            add_character(&mut table, chars[j]);
            proof {
                let c = chars@[j as int];
                let next = chars@.take(j + 1);
                assert forall|d: char| #[trigger]
                    table@.contains(d) <==> before.contains(d) || next.contains(d) by {
                    assert(table@.contains(d) <==> inner.contains(d) || d == c);
                    if chars@.take(j as int).contains(d) {
                        let k = choose|k: int| 0 <= k < j && chars@.take(j as int)[k] == d;
                        assert(next[k] == d);
                    }
                    if d == c {
                        assert(next[j as int] == d);
                    }
                    if next.contains(d) {
                        let k = choose|k: int| 0 <= k < next.len() && next[k] == d;
                        if k < j {
                            assert(chars@.take(j as int)[k] == d);
                        }
                    }
                }
            }
            j += 1;
        }
        proof {
            assert(chars@.take(chars@.len() as int) =~= chars@);
            let old_texts = all.take(i as int);
            let new_texts = all.take(i + 1);
            assert forall|d: char| #[trigger] table@.contains(d) <==> occurs(new_texts, d) by {
                assert(before.contains(d) <==> occurs(old_texts, d));
                if occurs(old_texts, d) {
                    let k = choose|k: int|
                        0 <= k < old_texts.len() && (#[trigger] old_texts[k]).contains(d);
                    assert(new_texts[k].contains(d));
                }
                if chars@.contains(d) {
                    assert(new_texts[i as int].contains(d));
                }
                if occurs(new_texts, d) {
                    let k = choose|k: int|
                        0 <= k < new_texts.len() && (#[trigger] new_texts[k]).contains(d);
                    if k < i {
                        assert(old_texts[k].contains(d));
                    }
                }
            }
        }
        i += 1;
    }
    proof {
        assert(all.take(all.len() as int) =~= all);
        lemma_table(table@, all);
    }
    if table.len() > MAX_CHARACTER_CODES {
        return Err(
            invalid("searchable PDF text has more than 65,535 distinct Unicode characters"),
        );
    }
    Ok(table)
}

/// The code of a character that the table lists: its place, counted from one.
pub open spec fn code_of(table: Seq<char>, c: char) -> int {
    1 + table.index_of(c)
}

/// The code of a character, where the table lists it.
pub fn character_code(table: &Vec<char>, c: char) -> (r: Option<u16>)
    requires
        is_increasing(table@),
        table@.len() <= MAX_CHARACTER_CODES,
    ensures
        r is Some <==> table@.contains(c),
        r is Some ==> r->0 == code_of(table@, c),
{
    let at = slot(table, c);
    if at < table.len() && table[at] == c {
        proof {
            assert(table@[at as int] == c);
            let k = table@.index_of(c);
            assert(0 <= k < table@.len() && table@[k] == c);
            if k < at {
                assert(table@[k] < table@[at as int]);
            }
            if k > at {
                assert(table@[at as int] < table@[k]);
            }
        }
        Some((at + 1) as u16)
    } else {
        proof {
            if table@.contains(c) {
                let k = choose|k: int| 0 <= k < table@.len() && table@[k] == c;
                assert(k >= at);
                if at < k {
                    assert(table@[at as int] < table@[k]);
                }
            }
        }
        None
    }
}

// ---------------------------------------------------------------------------
// Encoded text
// ---------------------------------------------------------------------------

/// The two bytes of a number, the high one first.
pub open spec fn be16(v: int) -> Seq<u8> {
    seq![(v / 256) as u8, (v % 256) as u8]
}

/// Appends the two bytes of a number, the high one first.
fn push_be16(out: &mut Vec<u8>, v: u16)
    ensures
        final(out)@ == old(out)@ + be16(v as int),
{
    out.push((v / 256) as u8);
    out.push((v % 256) as u8);
    assert(out@ =~= old(out)@ + be16(v as int));
}

/// The codes of a text, two bytes each.
pub open spec fn encoded(text: Seq<char>, table: Seq<char>) -> Seq<u8>
    decreases text.len(),
{
    if text.len() == 0 {
        Seq::empty()
    } else {
        encoded(text.drop_last(), table) + be16(code_of(table, text.last()))
    }
}

/// Whether the table lists every character of a text.
pub open spec fn covers(table: Seq<char>, text: Seq<char>) -> bool {
    forall|i: int| 0 <= i < text.len() ==> table.contains(#[trigger] text[i])
}

/// The encoded text, where the table lists every character of it.
pub open spec fn searchable_bytes(text: Seq<char>, table: Seq<char>) -> Result<Seq<u8>, Failure> {
    if covers(table, text) {
        Ok(encoded(text, table))
    } else {
        Err(Failure::Other("searchable PDF text is missing a Type0 character mapping"@))
    }
}

/// Encodes a text by the codes of its characters.
pub fn encode_searchable_text(text: &str, table: &Vec<char>) -> (r: Result<Vec<u8>, ScanError>)
    requires
        is_increasing(table@),
        table@.len() <= MAX_CHARACTER_CODES,
    ensures
        outcome_view(r) == searchable_bytes(text@, table@),
{
    let chars = chars_of(text);
    let mut out: Vec<u8> = Vec::new();
    let mut i: usize = 0;
    while i < chars.len()
        invariant
            i <= chars@.len(),
            chars@ == text@,
            is_increasing(table@),
            table@.len() <= MAX_CHARACTER_CODES,
            covers(table@, text@.take(i as int)),
            out@ == encoded(text@.take(i as int), table@),
        decreases chars@.len() - i,
    {
        match character_code(table, chars[i]) {
            None => {
                assert(!table@.contains(text@[i as int]));
                return Err(other("searchable PDF text is missing a Type0 character mapping"));
            },
            Some(code) => {
                push_be16(&mut out, code);
                proof {
                    let next = text@.take(i + 1);
                    assert(next.drop_last() =~= text@.take(i as int));
                    assert forall|k: int| 0 <= k < next.len() implies table@.contains(
                        #[trigger] next[k],
                    ) by {
                        if k < i {
                            assert(text@.take(i as int)[k] == next[k]);
                        }
                    }
                }
            },
        }
        i += 1;
    }
    assert(text@.take(i as int) =~= text@);
    Ok(out)
}

/// The characters whose codes stand in the bytes.
pub open spec fn decoded(bytes: Seq<u8>, table: Seq<char>) -> Seq<char>
    decreases bytes.len(),
{
    if bytes.len() < 2 {
        Seq::empty()
    } else {
        let n = bytes.len();
        decoded(bytes.take(n - 2), table).push(
            table[bytes[n - 2] * 256 + bytes[n - 1] - 1],
        )
    }
}

/// Searchable text reads back: the codes of a text, looked up in the table, give the text.
pub proof fn searchable_text_reads_back(text: Seq<char>, table: Seq<char>)
    requires
        table.len() <= MAX_CHARACTER_CODES,
        covers(table, text),
    ensures
        decoded(encoded(text, table), table) == text,
    decreases text.len(),
{
    if text.len() == 0 {
        assert(decoded(encoded(text, table), table) =~= text);
    } else {
        let head = text.drop_last();
        let c = text.last();
        assert(table.contains(text[text.len() - 1]));
        assert forall|i: int| 0 <= i < head.len() implies table.contains(#[trigger] head[i]) by {
            assert(head[i] == text[i]);
        }
        searchable_text_reads_back(head, table);
        let code = code_of(table, c);
        assert(1 <= code <= 65535 && table[code - 1] == c);
        let bytes = encoded(text, table);
        let n = bytes.len();
        assert(bytes.take(n - 2) =~= encoded(head, table));
        assert(bytes[n - 2] == (code / 256) as u8);
        assert(bytes[n - 1] == (code % 256) as u8);
        assert(decoded(bytes, table) =~= head.push(c));
        assert(head.push(c) =~= text);
    }
}

// ---------------------------------------------------------------------------
// Glyph map
// ---------------------------------------------------------------------------

/// The glyph of every code: code zero has glyph zero, every other code glyph one.
pub open spec fn glyph_map(character_count: nat) -> Seq<u8> {
    Seq::new(
        2 * (character_count + 1),
        |k: int|
            if k >= 2 && k % 2 == 1 {
                1u8
            } else {
                0u8
            },
    )
}

/// Maps every code to a valid, unremarkable glyph: the text is rendered invisibly.
pub fn cid_to_gid_map(character_count: usize) -> (r: Vec<u8>)
    requires
        character_count <= MAX_CHARACTER_CODES,
    ensures
        r@ == glyph_map(character_count as nat),
{
    let mut map: Vec<u8> = Vec::new();
    push_be16(&mut map, 0);
    let mut i: usize = 0;
    assert(map@ =~= glyph_map(0));
    while i < character_count
        invariant
            i <= character_count,
            map@ == glyph_map(i as nat),
        decreases character_count - i,
    {
        push_be16(&mut map, 1);
        i += 1;
        assert(map@ =~= glyph_map(i as nat));
    }
    map
}

// ---------------------------------------------------------------------------
// UTF-16
// ---------------------------------------------------------------------------

/// The UTF-16 code units of a character.
pub open spec fn utf16(c: char) -> Seq<int> {
    let n = c as int;
    if n < 0x10000 {
        seq![n]
    } else {
        seq![0xD800 + (n - 0x10000) / 0x400, 0xDC00 + (n - 0x10000) % 0x400]
    }
}

/// The first UTF-16 code unit of a character, and the second where there is one.
fn utf16_units(c: char) -> (r: (u16, Option<u16>))
    ensures
        match r.1 {
            None => utf16(c) == seq![r.0 as int],
            Some(low) => utf16(c) == seq![r.0 as int, low as int],
        },
{
    let n: u32 = c as u32;
    if n < 0x10000 {
        (n as u16, None)
    } else {
        let rest: u32 = n - 0x10000;
        ((0xD800 + rest / 0x400) as u16, Some((0xDC00 + rest % 0x400) as u16))
    }
}

/// The bytes of the UTF-16 code units of a character, the high byte of each first.
pub open spec fn utf16_bytes(c: char) -> Seq<u8> {
    let units = utf16(c);
    if units.len() == 1 {
        be16(units[0])
    } else {
        be16(units[0]) + be16(units[1])
    }
}

/// The bytes of a text in UTF-16, the high byte of each code unit first.
pub open spec fn utf16_text(text: Seq<char>) -> Seq<u8>
    decreases text.len(),
{
    if text.len() == 0 {
        Seq::empty()
    } else {
        utf16_text(text.drop_last()) + utf16_bytes(text.last())
    }
}

/// A PDF text string: a byte order mark and the text in UTF-16.
pub open spec fn pdf_text(text: Seq<char>) -> Seq<u8> {
    seq![0xFEu8, 0xFFu8] + utf16_text(text)
}

/// Encodes a PDF text string.
pub fn unicode_pdf_string(text: &str) -> (r: Vec<u8>)
    ensures
        r@ == pdf_text(text@),
{
    let chars = chars_of(text);
    let mut out: Vec<u8> = Vec::new();
    out.push(0xFE);
    out.push(0xFF);
    let mut i: usize = 0;
    assert(out@ =~= pdf_text(text@.take(0)));
    while i < chars.len()
        invariant
            i <= chars@.len(),
            chars@ == text@,
            out@ == pdf_text(text@.take(i as int)),
        decreases chars@.len() - i,
    {
        let (high, low) = utf16_units(chars[i]);
        push_be16(&mut out, high);
        if let Some(unit) = low {
            push_be16(&mut out, unit);
        }
        proof {
            assert(text@.take(i + 1).drop_last() =~= text@.take(i as int));
            assert(out@ =~= pdf_text(text@.take(i + 1)));
        }
        i += 1;
    }
    assert(text@.take(i as int) =~= text@);
    out
}

/// The text that stands in UTF-16 in the bytes.
pub open spec fn utf16_decoded(bytes: Seq<u8>) -> Seq<char>
    decreases bytes.len(),
{
    if bytes.len() < 2 {
        Seq::empty()
    } else {
        let unit = bytes[0] * 256 + bytes[1];
        if 0xD800 <= unit < 0xDC00 && bytes.len() >= 4 {
            let low = bytes[2] * 256 + bytes[3];
            seq![(0x10000 + (unit - 0xD800) * 0x400 + (low - 0xDC00)) as char] + utf16_decoded(
                bytes.skip(4),
            )
        } else {
            seq![unit as char] + utf16_decoded(bytes.skip(2))
        }
    }
}

proof fn lemma_utf16_head(c: char, rest: Seq<u8>)
    ensures
        utf16_decoded(utf16_bytes(c) + rest) == seq![c] + utf16_decoded(rest),
{
    let bytes = utf16_bytes(c) + rest;
    let n = c as int;
    if n < 0x10000 {
        assert(bytes[0] == (n / 256) as u8 && bytes[1] == (n % 256) as u8);
        assert(bytes[0] * 256 + bytes[1] == n);
        assert(bytes.skip(2) =~= rest);
        assert(!(0xD800 <= n < 0xDC00));
    } else {
        let high = 0xD800 + (n - 0x10000) / 0x400;
        let low = 0xDC00 + (n - 0x10000) % 0x400;
        assert(bytes[0] == (high / 256) as u8 && bytes[1] == (high % 256) as u8);
        assert(bytes[2] == (low / 256) as u8 && bytes[3] == (low % 256) as u8);
        assert(bytes[0] * 256 + bytes[1] == high);
        assert(bytes[2] * 256 + bytes[3] == low);
        assert(bytes.skip(4) =~= rest);
        assert(0x10000 + (high - 0xD800) * 0x400 + (low - 0xDC00) == n);
    }
}

proof fn lemma_utf16_text(text: Seq<char>, rest: Seq<u8>)
    ensures
        utf16_decoded(utf16_text(text) + rest) == text + utf16_decoded(rest),
    decreases text.len(),
{
    if text.len() == 0 {
        assert(utf16_text(text) + rest =~= rest);
        assert(text + utf16_decoded(rest) =~= utf16_decoded(rest));
    } else {
        let head = text.drop_last();
        let c = text.last();
        let tail = utf16_bytes(c) + rest;
        assert(utf16_text(text) + rest =~= utf16_text(head) + tail);
        lemma_utf16_text(head, tail);
        lemma_utf16_head(c, rest);
        assert(text + utf16_decoded(rest) =~= head + (seq![c] + utf16_decoded(rest)));
    }
}

/// A PDF text string reads back: behind the byte order mark stands the text.
pub proof fn pdf_text_reads_back(text: Seq<char>)
    ensures
        utf16_decoded(pdf_text(text).skip(2)) == text,
{
    assert(pdf_text(text).skip(2) =~= utf16_text(text) + Seq::<u8>::empty());
    lemma_utf16_text(text, Seq::empty());
    assert(text + utf16_decoded(Seq::empty()) =~= text);
}

// ---------------------------------------------------------------------------
// The map back to Unicode
// ---------------------------------------------------------------------------

/// A hexadecimal digit in upper case.
pub open spec fn hex_digit(d: int) -> char {
    if d < 10 {
        (48 + d) as char
    } else {
        (55 + d) as char
    }
}

/// Four hexadecimal digits.
pub open spec fn hex4(n: int) -> Seq<char> {
    seq![
        hex_digit(n / 4096),
        hex_digit(n / 256 % 16),
        hex_digit(n / 16 % 16),
        hex_digit(n % 16),
    ]
}

fn hex_char(d: u16) -> (r: char)
    requires
        d < 16,
    ensures
        r == hex_digit(d as int),
{
    if d < 10 {
        (48u8 + d as u8) as char
    } else {
        (55u8 + d as u8) as char
    }
}

fn push_hex4(out: &mut String, n: u16)
    ensures
        final(out)@ == old(out)@ + hex4(n as int),
{
    out.push(hex_char(n / 4096));
    out.push(hex_char(n / 256 % 16));
    out.push(hex_char(n / 16 % 16));
    out.push(hex_char(n % 16));
    assert(out@ =~= old(out)@ + hex4(n as int));
}

/// The UTF-16 code units of a character in hexadecimal digits.
pub open spec fn hex_utf16(c: char) -> Seq<char> {
    let units = utf16(c);
    if units.len() == 1 {
        hex4(units[0])
    } else {
        hex4(units[0]) + hex4(units[1])
    }
}

/// The line that maps a code to its character.
pub open spec fn cmap_line(code: int, c: char) -> Seq<char> {
    "<"@ + hex4(code) + "> <"@ + hex_utf16(c) + ">\n"@
}

/// The lines of `n` codes of the table, from the code of place `start` on.
pub open spec fn cmap_lines(table: Seq<char>, start: int, n: int) -> Seq<char>
    decreases n,
{
    if n <= 0 {
        Seq::empty()
    } else {
        cmap_lines(table, start, n - 1) + cmap_line(start + n, table[start + n - 1])
    }
}

/// The map's sections from a place on: at most a hundred lines in each.
pub open spec fn cmap_sections(table: Seq<char>, start: int) -> Seq<char>
    decreases table.len() - start,
{
    if start < 0 || start >= table.len() {
        Seq::empty()
    } else {
        let n = smaller(100, table.len() - start);
        decimal(n as nat) + " beginbfchar\n"@ + cmap_lines(table, start, n) + "endbfchar\n"@
            + cmap_sections(table, start + n)
    }
}

/// What stands before the sections.
pub open spec fn cmap_head() -> Seq<char> {
    "/CIDInit /ProcSet findresource begin\n12 dict begin\nbegincmap\n/CIDSystemInfo\n<< /Registry (Adobe) /Ordering (UCS) /Supplement 0 >> def\n/CMapName /OpenScanline-Identity-UCS def\n/CMapType 2 def\n1 begincodespacerange\n<0000> <FFFF>\nendcodespacerange\n"@
}

/// What stands behind the sections.
pub open spec fn cmap_tail() -> Seq<char> {
    "endcmap\nCMapName currentdict /CMap defineresource pop\nend\nend\n"@
}

/// The map from codes to Unicode.
pub open spec fn cmap_text(table: Seq<char>) -> Seq<char> {
    cmap_head() + cmap_sections(table, 0) + cmap_tail()
}

fn push_cmap_line(out: &mut String, code: u16, c: char)
    ensures
        final(out)@ == old(out)@ + cmap_line(code as int, c),
{
    let ghost before = out@;
    out.append("<");
    push_hex4(out, code);
    out.append("> <");
    let (high, low) = utf16_units(c);
    push_hex4(out, high);
    if let Some(unit) = low {
        push_hex4(out, unit);
    }
    out.append(">\n");
    assert(out@ =~= before + cmap_line(code as int, c));
}

/// Writes the map from codes to Unicode.
pub fn searchable_to_unicode_cmap(table: &Vec<char>) -> (r: Vec<u8>)
    requires
        table@.len() <= MAX_CHARACTER_CODES,
    ensures
        r@ == encode_utf8(cmap_text(table@)),
{
    let mut out =
        "/CIDInit /ProcSet findresource begin\n12 dict begin\nbegincmap\n/CIDSystemInfo\n<< /Registry (Adobe) /Ordering (UCS) /Supplement 0 >> def\n/CMapName /OpenScanline-Identity-UCS def\n/CMapType 2 def\n1 begincodespacerange\n<0000> <FFFF>\nendcodespacerange\n".to_owned();
    let mut start: usize = 0;
    while start < table.len()
        invariant
            start <= table@.len(),
            table@.len() <= MAX_CHARACTER_CODES,
            out@ + cmap_sections(table@, start as int) == cmap_head() + cmap_sections(table@, 0),
        decreases table@.len() - start,
    {
        let left: usize = table.len() - start;
        let n: usize = if left < 100 {
            left
        } else {
            100
        };
        let ghost before = out@;
        push_decimal(&mut out, n as u64);
        out.append(" beginbfchar\n");
        let ghost opened = out@;
        let mut i: usize = 0;
        assert(out@ =~= opened + cmap_lines(table@, start as int, 0));
        while i < n
            invariant
                i <= n,
                start + n <= table@.len(),
                table@.len() <= MAX_CHARACTER_CODES,
                out@ == opened + cmap_lines(table@, start as int, i as int),
            decreases n - i,
        {
            let ghost inner = out@;
            push_cmap_line(&mut out, (start + i + 1) as u16, table[start + i]);
            i += 1;
            assert(out@ =~= opened + cmap_lines(table@, start as int, i as int));
        }
        out.append("endbfchar\n");
        proof {
            assert(out@ + cmap_sections(table@, start + n) =~= before + cmap_sections(
                table@,
                start as int,
            ));
        }
        start += n;
    }
    out.append("endcmap\nCMapName currentdict /CMap defineresource pop\nend\nend\n");
    assert(out@ =~= cmap_text(table@));
    out.as_str().as_bytes_vec()
}

/// The number that a hexadecimal digit in upper case stands for.
pub open spec fn hex_value(c: char) -> int {
    if '0' <= c <= '9' {
        c as int - '0' as int
    } else {
        c as int - 'A' as int + 10
    }
}

/// Four hexadecimal digits read back as their number.
#[verifier::spinoff_prover]
#[verifier::rlimit(60)]
pub proof fn hexadecimal_digits_read_back(n: int)
    requires
        0 <= n < 0x10000,
    ensures
        hex4(n).len() == 4,
        4096 * hex_value(hex4(n)[0]) + 256 * hex_value(hex4(n)[1]) + 16 * hex_value(hex4(n)[2])
            + hex_value(hex4(n)[3]) == n,
{
    assert forall|d: int| 0 <= d < 16 implies hex_value(#[trigger] hex_digit(d)) == d by {}
    assert(0 <= n / 4096 < 16);
}

proof fn lemma_contains_more(a: Seq<char>, s: Seq<char>, b: Seq<char>, p: Seq<char>)
    requires
        contains_text(s, p),
    ensures
        contains_text(a + s + b, p),
{
    let i = choose|i: int|
        0 <= i <= s.len() - p.len() && #[trigger] s.subrange(i, i + p.len()) == p;
    let all = a + s + b;
    let k = a.len() + i;
    assert(all.subrange(k, k + p.len()) =~= s.subrange(i, i + p.len()));
}

proof fn lemma_line_in_lines(table: Seq<char>, start: int, n: int, i: int)
    requires
        0 <= start <= i < start + n,
    ensures
        contains_text(cmap_lines(table, start, n), cmap_line(i + 1, table[i])),
    decreases n,
{
    let line = cmap_line(start + n, table[start + n - 1]);
    let before = cmap_lines(table, start, n - 1);
    if i == start + n - 1 {
        let all = before + line;
        assert(all.subrange(before.len() as int, before.len() as int + line.len()) =~= line);
        assert(contains_text(all, line));
    } else {
        lemma_line_in_lines(table, start, n - 1, i);
        lemma_contains_more(Seq::empty(), before, line, cmap_line(i + 1, table[i]));
        assert(Seq::<char>::empty() + before + line =~= before + line);
    }
}

proof fn lemma_line_in_sections(table: Seq<char>, start: int, i: int)
    requires
        0 <= start <= i < table.len(),
    ensures
        contains_text(cmap_sections(table, start), cmap_line(i + 1, table[i])),
    decreases table.len() - start,
{
    let n = smaller(100, table.len() - start);
    let line = cmap_line(i + 1, table[i]);
    let head = decimal(n as nat) + " beginbfchar\n"@;
    let lines = cmap_lines(table, start, n);
    let rest = cmap_sections(table, start + n);
    if i < start + n {
        lemma_line_in_lines(table, start, n, i);
        lemma_contains_more(head, lines, "endbfchar\n"@ + rest, line);
        assert(head + lines + ("endbfchar\n"@ + rest) =~= cmap_sections(table, start));
    } else {
        lemma_line_in_sections(table, start + n, i);
        let before = head + lines + "endbfchar\n"@;
        lemma_contains_more(before, rest, Seq::empty(), line);
        assert(before + rest + Seq::<char>::empty() =~= cmap_sections(table, start));
    }
}

/// The map back to Unicode holds, for every code, a line that gives the code and the UTF-16 code units of
/// its character, in hexadecimal digits between angle brackets. The codes begin with one.
#[verifier::spinoff_prover]
#[verifier::rlimit(60)]
pub proof fn maps_list_every_character(table: Seq<char>, i: int)
    requires
        0 <= i < table.len() <= MAX_CHARACTER_CODES,
    ensures
        (table[i] as int) < 0x10000 ==> contains_text(
            cmap_text(table),
            "<"@ + hex4(i + 1) + "> <"@ + hex4(table[i] as int) + ">\n"@,
        ),
        table[i] as int >= 0x10000 ==> contains_text(
            cmap_text(table),
            "<"@ + hex4(i + 1) + "> <"@ + (hex4(0xD800 + (table[i] as int - 0x10000) / 0x400) + hex4(
                0xDC00 + (table[i] as int - 0x10000) % 0x400,
            )) + ">\n"@,
        ),
{
    lemma_line_in_sections(table, 0, i);
    lemma_contains_more(
        cmap_head(),
        cmap_sections(table, 0),
        cmap_tail(),
        cmap_line(i + 1, table[i]),
    );
}

/// Code zero has the glyph for what is missing and every code of a character the same glyph, each as two
/// bytes.
pub proof fn glyph_maps_cover_every_code(character_count: nat, code: int)
    requires
        0 <= code <= character_count,
    ensures
        glyph_map(character_count).len() == 2 * (character_count + 1),
        glyph_map(character_count)[2 * code] == 0,
        glyph_map(character_count)[2 * code + 1] == if code == 0 {
            0int
        } else {
            1
        },
{
}

} // verus!
