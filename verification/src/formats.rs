//! Image containers by their first bytes.

use vstd::prelude::*;

verus! {

/// Whether bytes begin with others.
pub open spec fn begins(bytes: Seq<u8>, head: Seq<u8>) -> bool {
    bytes.len() >= head.len() && bytes.take(head.len() as int) == head
}

/// Whether bytes stand at a place.
pub open spec fn holds_at(bytes: Seq<u8>, at: int, part: Seq<u8>) -> bool {
    at + part.len() <= bytes.len() && bytes.subrange(at, at + part.len()) == part
}

fn stands_at(bytes: &[u8], at: usize, part: &[u8]) -> (r: bool)
    ensures
        r == holds_at(bytes@, at as int, part@),
{
    let total: usize = bytes.len();
    if total < at || total - at < part.len() {
        return false;
    }
    let mut i: usize = 0;
    while i < part.len()
        invariant
            i <= part@.len(),
            total == bytes@.len(),
            at + part@.len() <= total,
            forall|j: int| 0 <= j < i ==> bytes@[at + j] == #[trigger] part@[j],
        decreases part@.len() - i,
    {
        if bytes[at + i] != part[i] {
            assert(bytes@.subrange(at as int, at + part@.len())[i as int] == bytes@[at + i]);
            return false;
        }
        i += 1;
    }
    assert(bytes@.subrange(at as int, at + part@.len()) =~= part@);
    true
}

fn starts(bytes: &[u8], head: &[u8]) -> (r: bool)
    ensures
        r == begins(bytes@, head@),
{
    let r = stands_at(bytes, 0, head);
    proof {
        if bytes@.len() >= head@.len() {
            assert(bytes@.subrange(0, head@.len() as int) =~= bytes@.take(head@.len() as int));
        }
    }
    r
}

/// The first bytes of a PNG file.
pub open spec fn png_magic() -> Seq<u8> {
    seq![0x89u8, 0x50, 0x4E, 0x47, 0x0D, 0x0A, 0x1A, 0x0A]
}

/// Whether bytes begin as a PNG file does.
pub fn is_png_magic(bytes: &[u8]) -> (r: bool)
    ensures
        r == begins(bytes@, png_magic()),
{
    let head: [u8; 8] = [0x89, 0x50, 0x4E, 0x47, 0x0D, 0x0A, 0x1A, 0x0A];
    assert(head@ =~= png_magic());
    starts(bytes, &head)
}

/// The container that bytes begin.
pub open spec fn container_name(bytes: Seq<u8>) -> Option<Seq<char>> {
    if begins(bytes, png_magic()) {
        Some("png"@)
    } else if begins(bytes, seq![0xFFu8, 0xD8, 0xFF]) {
        Some("jpeg"@)
    } else if begins(bytes, seq![0x49u8, 0x49]) || begins(bytes, seq![0x4Du8, 0x4D]) {
        Some("tiff"@)
    } else if begins(bytes, seq![0x47u8, 0x49, 0x46, 0x38, 0x37, 0x61]) || begins(
        bytes,
        seq![0x47u8, 0x49, 0x46, 0x38, 0x39, 0x61],
    ) {
        Some("gif"@)
    } else if begins(bytes, seq![0x42u8, 0x4D]) {
        Some("bmp"@)
    } else if begins(bytes, seq![0x52u8, 0x49, 0x46, 0x46]) && holds_at(
        bytes,
        8,
        seq![0x57u8, 0x45, 0x42, 0x50],
    ) {
        Some("webp"@)
    } else if begins(bytes, seq![0x25u8, 0x50, 0x44, 0x46, 0x2D]) {
        Some("pdf"@)
    } else if begins(bytes, seq![0xFFu8, 0x0A]) || begins(
        bytes,
        seq![0u8, 0, 0, 0x0C, 0x4A, 0x58, 0x4C, 0x20, 0x0D, 0x0A, 0x87, 0x0A],
    ) {
        Some("jxl"@)
    } else {
        None
    }
}

/// Finds the container that bytes begin.
pub fn detect_format_bytes(bytes: &[u8]) -> (r: Option<&'static str>)
    ensures
        match container_name(bytes@) {
            Some(name) => r is Some && r->0@ == name,
            None => r is None,
        },
{
    let jpeg: [u8; 3] = [0xFF, 0xD8, 0xFF];
    let little: [u8; 2] = [0x49, 0x49];
    let big: [u8; 2] = [0x4D, 0x4D];
    let gif87: [u8; 6] = [0x47, 0x49, 0x46, 0x38, 0x37, 0x61];
    let gif89: [u8; 6] = [0x47, 0x49, 0x46, 0x38, 0x39, 0x61];
    let bmp: [u8; 2] = [0x42, 0x4D];
    let riff: [u8; 4] = [0x52, 0x49, 0x46, 0x46];
    let webp: [u8; 4] = [0x57, 0x45, 0x42, 0x50];
    let pdf: [u8; 5] = [0x25, 0x50, 0x44, 0x46, 0x2D];
    let jxl: [u8; 2] = [0xFF, 0x0A];
    let boxed: [u8; 12] = [0, 0, 0, 0x0C, 0x4A, 0x58, 0x4C, 0x20, 0x0D, 0x0A, 0x87, 0x0A];
    proof {
        assert(jpeg@ =~= seq![0xFFu8, 0xD8, 0xFF]);
        assert(little@ =~= seq![0x49u8, 0x49]);
        assert(big@ =~= seq![0x4Du8, 0x4D]);
        assert(gif87@ =~= seq![0x47u8, 0x49, 0x46, 0x38, 0x37, 0x61]);
        assert(gif89@ =~= seq![0x47u8, 0x49, 0x46, 0x38, 0x39, 0x61]);
        assert(bmp@ =~= seq![0x42u8, 0x4D]);
        assert(riff@ =~= seq![0x52u8, 0x49, 0x46, 0x46]);
        assert(webp@ =~= seq![0x57u8, 0x45, 0x42, 0x50]);
        assert(pdf@ =~= seq![0x25u8, 0x50, 0x44, 0x46, 0x2D]);
        assert(jxl@ =~= seq![0xFFu8, 0x0A]);
        assert(boxed@ =~= seq![0u8, 0, 0, 0x0C, 0x4A, 0x58, 0x4C, 0x20, 0x0D, 0x0A, 0x87, 0x0A]);
    }
    if is_png_magic(bytes) {
        Some("png")
    } else if starts(bytes, &jpeg) {
        Some("jpeg")
    } else if starts(bytes, &little) || starts(bytes, &big) {
        Some("tiff")
    } else if starts(bytes, &gif87) || starts(bytes, &gif89) {
        Some("gif")
    } else if starts(bytes, &bmp) {
        Some("bmp")
    } else if starts(bytes, &riff) && stands_at(bytes, 8, &webp) {
        Some("webp")
    } else if starts(bytes, &pdf) {
        Some("pdf")
    } else if starts(bytes, &jxl) || starts(bytes, &boxed) {
        Some("jxl")
    } else {
        None
    }
}

proof fn lemma_begins(head: Seq<u8>, rest: Seq<u8>)
    requires
        head.len() >= 2,
    ensures
        begins(head + rest, head),
        forall|other: Seq<u8>| #[trigger]
            begins(head + rest, other) && other.len() >= 2 ==> other[0] == head[0] && other[1] == head[1],
{
    let all = head + rest;
    assert(all.take(head.len() as int) =~= head);
    assert forall|other: Seq<u8>| #[trigger] begins(all, other) && other.len() >= 2 implies other[0]
        == head[0] && other[1] == head[1] by {
        assert(all.take(other.len() as int)[0] == all[0]);
        assert(all.take(other.len() as int)[1] == all[1]);
    }
}

/// A container is told by its first bytes, whatever follows them.
#[verifier::spinoff_prover]
#[verifier::rlimit(60)]
pub proof fn containers_are_told_by_their_first_bytes(rest: Seq<u8>, size: Seq<u8>)
    requires
        size.len() == 4,
    ensures
        container_name(seq![0x89u8, 0x50, 0x4E, 0x47, 0x0D, 0x0A, 0x1A, 0x0A] + rest) == Some("png"@),
        container_name(seq![0xFFu8, 0xD8, 0xFF] + rest) == Some("jpeg"@),
        container_name(seq![0x49u8, 0x49] + rest) == Some("tiff"@),
        container_name(seq![0x4Du8, 0x4D] + rest) == Some("tiff"@),
        container_name(seq![0x47u8, 0x49, 0x46, 0x38, 0x37, 0x61] + rest) == Some("gif"@),
        container_name(seq![0x47u8, 0x49, 0x46, 0x38, 0x39, 0x61] + rest) == Some("gif"@),
        container_name(seq![0x42u8, 0x4D] + rest) == Some("bmp"@),
        container_name(seq![0x25u8, 0x50, 0x44, 0x46, 0x2D] + rest) == Some("pdf"@),
        container_name(seq![0xFFu8, 0x0A] + rest) == Some("jxl"@),
        container_name(seq![0u8, 0, 0, 0x0C, 0x4A, 0x58, 0x4C, 0x20, 0x0D, 0x0A, 0x87, 0x0A] + rest) == Some("jxl"@),
        container_name(
            seq![0x52u8, 0x49, 0x46, 0x46] + size + seq![0x57u8, 0x45, 0x42, 0x50] + rest,
        ) == Some("webp"@),
{
    lemma_begins(seq![0x89u8, 0x50, 0x4E, 0x47, 0x0D, 0x0A, 0x1A, 0x0A], rest);
    lemma_begins(seq![0xFFu8, 0xD8, 0xFF], rest);
    lemma_begins(seq![0x49u8, 0x49], rest);
    lemma_begins(seq![0x4Du8, 0x4D], rest);
    lemma_begins(seq![0x47u8, 0x49, 0x46, 0x38, 0x37, 0x61], rest);
    lemma_begins(seq![0x47u8, 0x49, 0x46, 0x38, 0x39, 0x61], rest);
    lemma_begins(seq![0x42u8, 0x4D], rest);
    lemma_begins(seq![0x25u8, 0x50, 0x44, 0x46, 0x2D], rest);
    lemma_begins(seq![0xFFu8, 0x0A], rest);
    lemma_begins(seq![0u8, 0, 0, 0x0C, 0x4A, 0x58, 0x4C, 0x20, 0x0D, 0x0A, 0x87, 0x0A], rest);
    let riff = seq![0x52u8, 0x49, 0x46, 0x46];
    let webp = seq![0x57u8, 0x45, 0x42, 0x50];
    let all = riff + size + webp + rest;
    lemma_begins(riff, size + webp + rest);
    assert(riff + (size + webp + rest) =~= all);
    assert(all.subrange(8, 8int + webp.len()) =~= webp);
}

} // verus!
