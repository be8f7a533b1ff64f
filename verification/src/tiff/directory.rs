//! The directories of TIFF documents in any form: either byte order, classic or big.

use vstd::prelude::*;

verus! {

// ---------------------------------------------------------------------------
// Numbers
// ---------------------------------------------------------------------------

/// The 16-bit number at a place.
pub open spec fn number16(document: Seq<u8>, at: int, little: bool) -> int {
    if little {
        document[at] + 256 * document[at + 1]
    } else {
        256 * document[at] + document[at + 1]
    }
}

/// The 32-bit number at a place.
pub open spec fn number32(document: Seq<u8>, at: int, little: bool) -> int {
    if little {
        number16(document, at, little) + 65536 * number16(document, at + 2, little)
    } else {
        65536 * number16(document, at, little) + number16(document, at + 2, little)
    }
}

/// The 64-bit number at a place.
pub open spec fn number64(document: Seq<u8>, at: int, little: bool) -> int {
    if little {
        number32(document, at, little) + 4294967296 * number32(document, at + 4, little)
    } else {
        4294967296 * number32(document, at, little) + number32(document, at + 4, little)
    }
}

fn read16(document: &[u8], at: usize, little: bool) -> (r: u16)
    requires
        at + 2 <= document@.len(),
    ensures
        r == number16(document@, at as int, little),
{
    let a: u16 = document[at] as u16;
    let b: u16 = document[at + 1] as u16;
    if little {
        a + 256 * b
    } else {
        256 * a + b
    }
}

fn read32(document: &[u8], at: usize, little: bool) -> (r: u32)
    requires
        at + 4 <= document@.len(),
    ensures
        r == number32(document@, at as int, little),
{
    let total: usize = document.len();
    assert(at + 4 <= total);
    let a: u32 = read16(document, at, little) as u32;
    let b: u32 = read16(document, at + 2, little) as u32;
    if little {
        a + 65536 * b
    } else {
        65536 * a + b
    }
}

fn read64(document: &[u8], at: usize, little: bool) -> (r: u64)
    requires
        at + 8 <= document@.len(),
    ensures
        r == number64(document@, at as int, little),
{
    let total: usize = document.len();
    assert(at + 8 <= total);
    let a: u64 = read32(document, at, little) as u64;
    let b: u64 = read32(document, at + 4, little) as u64;
    if little {
        a + 4294967296 * b
    } else {
        4294967296 * a + b
    }
}

// ---------------------------------------------------------------------------
// Directories
// ---------------------------------------------------------------------------

/// How the numbers of a document are stored, and whether its offsets have 64 bits.
#[derive(Debug, Clone, Copy, PartialEq, Eq, Structural)]
pub struct TiffForm {
    pub little: bool,
    pub big: bool,
}

/// The form that a document begins with.
pub open spec fn form_of(document: Seq<u8>) -> Option<TiffForm> {
    if document.len() < 4 || document[0] != document[1] || document[0] != 0x49 && document[0]
        != 0x4d {
        None
    } else {
        let little = document[0] == 0x49;
        let kind = number16(document, 2, little);
        if kind == 42 {
            Some(TiffForm { little, big: false })
        } else if kind == 43 && document.len() >= 8 && number16(document, 4, little) == 8
            && number16(document, 6, little) == 0 {
            Some(TiffForm { little, big: true })
        } else {
            None
        }
    }
}

/// The form that a document begins with.
pub fn tiff_form(document: &[u8]) -> (r: Option<TiffForm>)
    ensures
        document@.len() >= 4 && document@[0] == 0x49 && document@[1] == 0x49 && document@[2] == 42 && document@[3]
            == 0 ==> r == Some(TiffForm { little: true, big: false }),
        document@.len() >= 4 && document@[0] == 0x4d && document@[1] == 0x4d && document@[2] == 0 && document@[3]
            == 42 ==> r == Some(TiffForm { little: false, big: false }),
        r is Some ==> document@.len() >= 4 && document@[0] == document@[1] && (if r->0.little {
            document@[0] == 0x49 && document@[2] == (if r->0.big { 43 } else { 42int }) && document@[3] == 0
        } else {
            document@[0] == 0x4d && document@[2] == 0 && document@[3] == (if r->0.big { 43 } else { 42int })
        }),
        r == form_of(document@),
{
    if document.len() < 4 || document[0] != document[1] || document[0] != 0x49 && document[0]
        != 0x4d {
        return None;
    }
    let little = document[0] == 0x49;
    let kind: u16 = read16(document, 2, little);
    if kind == 42 {
        Some(TiffForm { little, big: false })
    } else if kind == 43 && document.len() >= 8 && read16(document, 4, little) == 8 && read16(
        document,
        6,
        little,
    ) == 0 {
        Some(TiffForm { little, big: true })
    } else {
        None
    }
}

/// The offset of the first directory.
pub open spec fn first_directory(document: Seq<u8>, form: TiffForm) -> Option<int> {
    if form.big {
        if document.len() < 16 {
            None
        } else {
            Some(number64(document, 8, form.little))
        }
    } else if document.len() < 8 {
        None
    } else {
        Some(number32(document, 4, form.little))
    }
}

/// The offset of the first directory.
pub fn first_offset(document: &[u8], form: TiffForm) -> (r: Option<u64>)
    ensures
        match r {
            Some(at) => first_directory(document@, form) == Some(at as int),
            None => first_directory(document@, form) is None,
        },
{
    if form.big {
        if document.len() < 16 {
            None
        } else {
            Some(read64(document, 8, form.little))
        }
    } else if document.len() < 8 {
        None
    } else {
        Some(read32(document, 4, form.little) as u64)
    }
}

/// Whether the type of an entry is known; an entry of another type is passed over.
pub open spec fn known_type(kind: int) -> bool {
    1 <= kind <= 13 || 16 <= kind <= 18
}

/// The bytes of an entry of a known type.
pub open spec fn entry_size(form: TiffForm) -> int {
    if form.big {
        20
    } else {
        12
    }
}

/// The number that an entry holds, where it holds one that fits 32 bits.
pub open spec fn entry_number(document: Seq<u8>, at: int, form: TiffForm) -> Option<int> {
    let kind = number16(document, at + 2, form.little);
    let count = if form.big {
        number64(document, at + 4, form.little)
    } else {
        number32(document, at + 4, form.little)
    };
    let field = if form.big {
        at + 12
    } else {
        at + 8
    };
    if count != 1 {
        None
    } else if kind == 1 || kind == 7 {
        Some(document[field] as int)
    } else if kind == 3 {
        Some(number16(document, field, form.little))
    } else if kind == 4 || kind == 13 {
        Some(number32(document, field, form.little))
    } else if kind == 16 || kind == 18 {
        let there = if form.big {
            field
        } else {
            number32(document, field, form.little)
        };
        if there + 8 > document.len() || number64(document, there, form.little) > u32::MAX {
            None
        } else {
            Some(number64(document, there, form.little))
        }
    } else {
        None
    }
}

fn read_number(document: &[u8], at: usize, form: TiffForm) -> (r: Option<u32>)
    requires
        at + entry_size(form) <= document@.len(),
    ensures
        match r {
            Some(n) => entry_number(document@, at as int, form) == Some(n as int),
            None => entry_number(document@, at as int, form) is None,
        },
{
    let total: usize = document.len();
    let kind: u16 = read16(document, at + 2, form.little);
    let count: u64 = if form.big {
        read64(document, at + 4, form.little)
    } else {
        read32(document, at + 4, form.little) as u64
    };
    let field: usize = if form.big {
        at + 12
    } else {
        at + 8
    };
    if count != 1 {
        None
    } else if kind == 1 || kind == 7 {
        Some(document[field] as u32)
    } else if kind == 3 {
        Some(read16(document, field, form.little) as u32)
    } else if kind == 4 || kind == 13 {
        Some(read32(document, field, form.little))
    } else if kind == 16 || kind == 18 {
        let there: u64 = if form.big {
            field as u64
        } else {
            read32(document, field, form.little) as u64
        };
        if there > total as u64 || total as u64 - there < 8 {
            return None;
        }
        let number: u64 = read64(document, there as usize, form.little);
        if number > u32::MAX as u64 {
            None
        } else {
            Some(number as u32)
        }
    } else {
        None
    }
}

/// The size and the samples of a pixel that the entries of a directory give, and where they end.
pub struct Entries {
    pub width: Option<int>,
    pub length: Option<int>,
    pub samples: int,
    pub end: int,
}

/// The most samples that a pixel can have.
pub const MAX_SAMPLES: u32 = 65535;

/// The samples of a pixel that an entry gives; the most where it gives no number.
pub open spec fn entry_samples(document: Seq<u8>, at: int, form: TiffForm) -> int {
    match entry_number(document, at, form) {
        Some(n) => n,
        None => MAX_SAMPLES as int,
    }
}

/// The entries from a place on, of which there are `n`. The last entry for a tag holds.
pub open spec fn entries_from(
    document: Seq<u8>,
    form: TiffForm,
    at: int,
    n: int,
    width: Option<int>,
    length: Option<int>,
    samples: int,
) -> Option<Entries>
    decreases n,
{
    if n <= 0 {
        Some(Entries { width, length, samples, end: at })
    } else if at + 12 > document.len() {
        None
    } else if !known_type(number16(document, at + 2, form.little)) {
        entries_from(document, form, at + 12, n - 1, width, length, samples)
    } else if at + entry_size(form) > document.len() {
        None
    } else {
        let tag = number16(document, at, form.little);
        entries_from(
            document,
            form,
            at + entry_size(form),
            n - 1,
            if tag == 256 {
                entry_number(document, at, form)
            } else {
                width
            },
            if tag == 257 {
                entry_number(document, at, form)
            } else {
                length
            },
            if tag == 277 {
                entry_samples(document, at, form)
            } else {
                samples
            },
        )
    }
}

/// What a directory says of the size of its page and of the samples of a pixel, of which there is one
/// where it says nothing, and the offset of the next directory.
pub struct DirectoryView {
    pub width: Option<int>,
    pub length: Option<int>,
    pub samples: int,
    pub next: int,
}

/// A directory of a document, where all of it stands there.
pub open spec fn directory_at(document: Seq<u8>, form: TiffForm, at: int) -> Option<DirectoryView> {
    let counter: int = if form.big {
        8
    } else {
        2
    };
    if at + counter > document.len() {
        None
    } else {
        let n = if form.big {
            number64(document, at, form.little)
        } else {
            number16(document, at, form.little)
        };
        match entries_from(document, form, at + counter, n, None, None, 1) {
            None => None,
            Some(entries) => if form.big {
                if entries.end + 8 > document.len() {
                    None
                } else {
                    Some(
                        DirectoryView {
                            width: entries.width,
                            length: entries.length,
                            samples: entries.samples,
                            next: number64(document, entries.end, form.little),
                        },
                    )
                }
            } else if entries.end + 4 > document.len() {
                None
            } else {
                Some(
                    DirectoryView {
                        width: entries.width,
                        length: entries.length,
                        samples: entries.samples,
                        next: number32(document, entries.end, form.little),
                    },
                )
            },
        }
    }
}

/// What a directory says of the size of its page and of the samples of a pixel, and the offset of the
/// next directory.
#[derive(Debug, Clone, Copy, PartialEq, Eq)]
pub struct TiffDirectory {
    pub width: Option<u32>,
    pub length: Option<u32>,
    pub samples: u32,
    pub next: u64,
}

/// An optional number.
pub open spec fn opt_number(n: Option<u32>) -> Option<int> {
    match n {
        Some(n) => Some(n as int),
        None => None,
    }
}

impl View for TiffDirectory {
    type V = DirectoryView;

    open spec fn view(&self) -> DirectoryView {
        DirectoryView {
            width: opt_number(self.width),
            length: opt_number(self.length),
            samples: self.samples as int,
            next: self.next as int,
        }
    }
}

/// What entries give, and where they end.
struct ReadEntries {
    width: Option<u32>,
    length: Option<u32>,
    samples: u32,
    end: usize,
}

/// The entries from a place on: what they give, and where they end.
fn read_entries(document: &[u8], form: TiffForm, start: usize, n: u64) -> (r: Option<ReadEntries>)
    requires
        start <= document@.len(),
    ensures
        match r {
            Some(read) => read.end <= document@.len() && entries_from(
                document@,
                form,
                start as int,
                n as int,
                None,
                None,
                1,
            ) == Some(
                Entries {
                    width: opt_number(read.width),
                    length: opt_number(read.length),
                    samples: read.samples as int,
                    end: read.end as int,
                },
            ),
            None => entries_from(document@, form, start as int, n as int, None, None, 1) is None,
        },
{
    let total: usize = document.len();
    let mut place: usize = start;
    let mut width: Option<u32> = None;
    let mut length: Option<u32> = None;
    let mut samples: u32 = 1;
    let mut k: u64 = 0;
    let ghost whole = entries_from(document@, form, start as int, n as int, None, None, 1);
    while k < n
        invariant
            total == document@.len(),
            k <= n,
            place <= total,
            whole == entries_from(document@, form, start as int, n as int, None, None, 1),
            whole == entries_from(
                document@,
                form,
                place as int,
                n - k,
                opt_number(width),
                opt_number(length),
                samples as int,
            ),
        decreases n - k,
    {
        if total - place < 12 {
            return None;
        }
        let kind: u16 = read16(document, place + 2, form.little);
        if 1 <= kind && kind <= 13 || 16 <= kind && kind <= 18 {
            let size: usize = if form.big {
                20
            } else {
                12
            };
            if total - place < size {
                return None;
            }
            let tag: u16 = read16(document, place, form.little);
            if tag == 256 {
                width = read_number(document, place, form);
            } else if tag == 257 {
                length = read_number(document, place, form);
            } else if tag == 277 {
                samples =
                match read_number(document, place, form) {
                    Some(number) => number,
                    None => MAX_SAMPLES,
                };
            }
            place += size;
        } else {
            place += 12;
        }
        k += 1;
    }
    Some(ReadEntries { width, length, samples, end: place })
}

/// A directory of a document, where all of it stands there.
pub fn tiff_directory(document: &[u8], form: TiffForm, at: u64) -> (r: Option<TiffDirectory>)
    ensures
        match r {
            Some(directory) => directory_at(document@, form, at as int) == Some(directory@),
            None => directory_at(document@, form, at as int) is None,
        },
{
    let total: usize = document.len();
    let counter: usize = if form.big {
        8
    } else {
        2
    };
    if at > total as u64 || total - (at as usize) < counter {
        return None;
    }
    let start: usize = at as usize;
    let n: u64 = if form.big {
        read64(document, start, form.little)
    } else {
        read16(document, start, form.little) as u64
    };
    let read = match read_entries(document, form, start + counter, n) {
        Some(read) => read,
        None => {
            return None;
        },
    };
    let width = read.width;
    let length = read.length;
    let samples: u32 = read.samples;
    if form.big {
        if total - read.end < 8 {
            return None;
        }
        let next: u64 = read64(document, read.end, form.little);
        Some(TiffDirectory { width, length, samples, next })
    } else {
        if total - read.end < 4 {
            return None;
        }
        let next: u64 = read32(document, read.end, form.little) as u64;
        Some(TiffDirectory { width, length, samples, next })
    }
}

// ---------------------------------------------------------------------------
// Pages
// ---------------------------------------------------------------------------

/// The offset of the directory of a page, where the chain of directories leads to one.
pub open spec fn page_directory(document: Seq<u8>, index: nat) -> Option<int>
    decreases index,
{
    match form_of(document) {
        None => None,
        Some(form) => if index == 0 {
            first_directory(document, form)
        } else {
            match page_directory(document, (index - 1) as nat) {
                None => None,
                Some(at) => match directory_at(document, form, at) {
                    None => None,
                    Some(directory) => if directory.next == 0 {
                        None
                    } else {
                        Some(directory.next)
                    },
                },
            }
        },
    }
}

/// The width and the length of the page of a directory, where it states a size that is not empty, and
/// the samples of a pixel.
pub open spec fn directory_shape(directory: Option<DirectoryView>) -> Option<(int, int, int)> {
    match directory {
        Some(d) => match (d.width, d.length) {
            (Some(width), Some(length)) => if width == 0 || length == 0 {
                None
            } else {
                Some((width, length, d.samples))
            },
            _ => None,
        },
        None => None,
    }
}

/// The width and the length that the directory of a page states, and the samples of a pixel.
pub open spec fn page_shape(document: Seq<u8>, index: nat) -> Option<(int, int, int)> {
    match (form_of(document), page_directory(document, index)) {
        (Some(form), Some(at)) => directory_shape(directory_at(document, form, at)),
        _ => None,
    }
}

/// Whether the strips of a page, and its tiles, can be counted whatever their size: there are no more
/// strips than rows, and no more tiles than pixels, for each sample.
pub open spec fn is_countable(width: int, length: int, samples: int) -> bool {
    length * samples <= u32::MAX && width * (length * samples) <= usize::MAX
}

/// Whether the strips of a page, and its tiles, can be counted whatever their size.
pub fn countable(width: u32, length: u32, samples: u32) -> (r: bool)
    ensures
        r == is_countable(width as int, length as int, samples as int),
{
    assert(0 <= length * samples <= 0xffff_ffff * 0xffff_ffff) by (nonlinear_arith)
        requires
            0 <= length <= 0xffff_ffff,
            0 <= samples <= 0xffff_ffff,
    ;
    let strips: u64 = length as u64 * samples as u64;
    if strips > u32::MAX as u64 {
        return false;
    }
    assert(0 <= width * strips <= 0xffff_ffff * 0xffff_ffff) by (nonlinear_arith)
        requires
            0 <= width <= 0xffff_ffff,
            0 <= strips <= 0xffff_ffff,
    ;
    let tiles: u64 = width as u64 * strips;
    tiles <= usize::MAX as u64
}

/// Whether the strips and the tiles of the page at a place can be counted, where its directory states
/// a size.
pub open spec fn page_fits(document: Seq<u8>, index: nat) -> bool {
    match page_shape(document, index) {
        Some((width, length, samples)) => is_countable(width, length, samples),
        None => true,
    }
}

/// A walk over the directories of a document, page by page.
#[derive(Debug, Clone, Copy, PartialEq, Eq)]
pub struct PageWalk {
    form: Option<TiffForm>,
    at: Option<u64>,
}

impl PageWalk {
    /// Whether the walk is at a page of a document.
    pub closed spec fn stands_at(self, document: Seq<u8>, index: nat) -> bool {
        &&& self.form == form_of(document)
        &&& match self.at {
            Some(at) => page_directory(document, index) == Some(at as int),
            None => page_directory(document, index) is None,
        }
    }

    /// A walk at the first page.
    pub(crate) fn new(document: &[u8]) -> (r: Self)
        ensures
            r.stands_at(document@, 0),
    {
        match tiff_form(document) {
            Some(form) => PageWalk { form: Some(form), at: first_offset(document, form) },
            None => PageWalk { form: None, at: None },
        }
    }

    /// Whether the page's strips and tiles can be counted, and the walk at the page behind it.
    pub(crate) fn step(self, document: &[u8], Ghost(index): Ghost<nat>) -> (r: (bool, Self))
        requires
            self.stands_at(document@, index),
        ensures
            r.1.stands_at(document@, index + 1),
            r.0 == page_fits(document@, index),
    {
        let (form, at) = match (self.form, self.at) {
            (Some(form), Some(at)) => (form, at),
            _ => {
                return (true, PageWalk { form: self.form, at: None });
            },
        };
        match tiff_directory(document, form, at) {
            None => (true, PageWalk { form: self.form, at: None }),
            Some(directory) => {
                let next: Option<u64> = if directory.next == 0 {
                    None
                } else {
                    Some(directory.next)
                };
                let fits = match (directory.width, directory.length) {
                    (Some(width), Some(length)) => width == 0 || length == 0 || countable(
                        width,
                        length,
                        directory.samples,
                    ),
                    _ => true,
                };
                (fits, PageWalk { form: self.form, at: next })
            },
        }
    }
}

} // verus!
