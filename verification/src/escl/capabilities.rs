//! Scanner capabilities: what a scanner advertises, read from its XML document.

use crate::processing::opt_text;
use crate::text::{
    chars_of, copied, copy_strings, equal_letters, has_text, lower_all, lower_chars,
    read_unsigned, same_chars, same_letters, strings, text_of, texts, trim, trimmed,
    unsigned_value, contains_text,
};
use crate::xml::{items, lossy_text, lossy_utf8, read_xml, utf8_text, xml_events, XmlEvent, XmlItem};
use vstd::prelude::*;
use vstd::slice::slice_subrange;
use vstd::utf8::{decode_utf8, valid_utf8};

verus! {

/// Where a scanner takes its pages from.
#[derive(Debug, Clone, Copy, PartialEq, Eq, Structural)]
pub enum CapabilitySource {
    Platen,
    AdfSimplex,
    AdfDuplex,
    Film,
}

impl CapabilitySource {
    /// The name of the source in scan settings.
    pub open spec fn spec_input(self) -> Seq<char> {
        match self {
            CapabilitySource::Platen => "Platen"@,
            CapabilitySource::AdfSimplex => "Feeder"@,
            CapabilitySource::AdfDuplex => "Feeder"@,
            CapabilitySource::Film => "Transparency"@,
        }
    }

    /// The name of the source in scan settings.
    pub fn input_source(self) -> (r: &'static str)
        ensures
            self is Platen ==> r@ == "Platen"@,
            self is AdfSimplex || self is AdfDuplex ==> r@ == "Feeder"@,
            self is Film ==> r@ == "Transparency"@,
            r@ == self.spec_input(),
    {
        match self {
            CapabilitySource::Platen => "Platen",
            CapabilitySource::AdfSimplex => "Feeder",
            CapabilitySource::AdfDuplex => "Feeder",
            CapabilitySource::Film => "Transparency",
        }
    }
}

/// What one source can do. Without a source it holds for all of them.
#[derive(Debug)]
pub struct SourceCapabilities {
    pub source: Option<CapabilitySource>,
    pub color_modes: Vec<String>,
    pub document_formats: Vec<String>,
    pub resolutions: Vec<(u32, u32)>,
    pub max_width: Option<u32>,
    pub max_height: Option<u32>,
}

/// What one source can do, as sequences.
#[verifier::ext_equal]
pub struct SourceCaps {
    pub source: Option<CapabilitySource>,
    pub color_modes: Seq<Seq<char>>,
    pub document_formats: Seq<Seq<char>>,
    pub resolutions: Seq<(u32, u32)>,
    pub max_width: Option<u32>,
    pub max_height: Option<u32>,
}

impl View for SourceCapabilities {
    type V = SourceCaps;

    open spec fn view(&self) -> SourceCaps {
        SourceCaps {
            source: self.source,
            color_modes: strings(self.color_modes@),
            document_formats: strings(self.document_formats@),
            resolutions: self.resolutions@,
            max_width: self.max_width,
            max_height: self.max_height,
        }
    }
}

/// A source of which nothing is known yet.
pub open spec fn empty_source(source: Option<CapabilitySource>) -> SourceCaps {
    SourceCaps {
        source,
        color_modes: Seq::empty(),
        document_formats: Seq::empty(),
        resolutions: Seq::empty(),
        max_width: None,
        max_height: None,
    }
}

impl SourceCapabilities {
    /// A source of which nothing is known yet.
    pub fn empty(source: Option<CapabilitySource>) -> (r: Self)
        ensures
            r@ == empty_source(source),
    {
        let r = SourceCapabilities {
            source,
            color_modes: Vec::new(),
            document_formats: Vec::new(),
            resolutions: Vec::new(),
            max_width: None,
            max_height: None,
        };
        assert(r@ =~= empty_source(source)) by {
            assert(r@.color_modes =~= Seq::<Seq<char>>::empty());
            assert(r@.document_formats =~= Seq::<Seq<char>>::empty());
        }
        r
    }
}

impl Clone for SourceCapabilities {
    fn clone(&self) -> (r: Self)
        ensures
            r@ == self@,
    {
        SourceCapabilities {
            source: self.source,
            color_modes: copy_strings(&self.color_modes),
            document_formats: copy_strings(&self.document_formats),
            resolutions: vstd::slice::slice_to_vec(self.resolutions.as_slice()),
            max_width: self.max_width,
            max_height: self.max_height,
        }
    }
}

/// The sources that a vector holds.
pub open spec fn source_list(v: Seq<SourceCapabilities>) -> Seq<SourceCaps> {
    v.map_values(|c: SourceCapabilities| c@)
}

/// What a scanner advertises, and the root under which it answered.
#[derive(Debug)]
pub struct ScannerCapabilities {
    pub make_and_model: Option<String>,
    pub root: String,
    pub sources: Vec<SourceCapabilities>,
}

/// What a scanner advertises, as sequences.
#[verifier::ext_equal]
pub struct Caps {
    pub make_and_model: Option<Seq<char>>,
    pub root: Seq<char>,
    pub sources: Seq<SourceCaps>,
}

impl View for ScannerCapabilities {
    type V = Caps;

    open spec fn view(&self) -> Caps {
        Caps {
            make_and_model: opt_text(self.make_and_model),
            root: self.root@,
            sources: source_list(self.sources@),
        }
    }
}

/// The index of the first entry for a source; the number of entries where there is none.
pub open spec fn entry_index(sources: Seq<SourceCaps>, source: Option<CapabilitySource>) -> int
    decreases sources.len(),
{
    if sources.len() == 0 || sources[0].source == source {
        0
    } else {
        1 + entry_index(sources.skip(1), source)
    }
}

/// The entry index lies within the entries or behind the last.
pub proof fn lemma_entry_index(sources: Seq<SourceCaps>, source: Option<CapabilitySource>)
    ensures
        0 <= entry_index(sources, source) <= sources.len(),
        entry_index(sources, source) < sources.len() ==> sources[entry_index(
            sources,
            source,
        )].source == source,
        forall|j: int| 0 <= j < entry_index(sources, source) ==> sources[j].source != source,
    decreases sources.len(),
{
    if sources.len() > 0 && sources[0].source != source {
        lemma_entry_index(sources.skip(1), source);
        assert forall|j: int| 0 <= j < entry_index(sources, source) implies sources[j].source
            != source by {
            if j > 0 {
                assert(sources.skip(1)[j - 1] == sources[j]);
            }
        }
    }
}

/// An index before which no entry is for the source, and at which one is or the entries end.
pub proof fn lemma_entry_index_is(
    sources: Seq<SourceCaps>,
    source: Option<CapabilitySource>,
    k: int,
)
    requires
        0 <= k <= sources.len(),
        forall|j: int| 0 <= j < k ==> sources[j].source != source,
        k < sources.len() ==> sources[k].source == source,
    ensures
        entry_index(sources, source) == k,
{
    lemma_entry_index(sources, source);
}

fn find_entry(sources: &Vec<SourceCapabilities>, source: Option<CapabilitySource>) -> (r: usize)
    ensures
        r == entry_index(source_list(sources@), source),
        r <= sources@.len(),
{
    let mut i: usize = 0;
    while i < sources.len() && !same_source(sources[i].source, source)
        invariant
            i <= sources@.len(),
            forall|j: int| 0 <= j < i ==> source_list(sources@)[j].source != source,
        decreases sources@.len() - i,
    {
        i += 1;
    }
    proof {
        lemma_entry_index_is(source_list(sources@), source, i as int);
    }
    i
}

fn same_source(a: Option<CapabilitySource>, b: Option<CapabilitySource>) -> (r: bool)
    ensures
        r == (a == b),
{
    match (a, b) {
        (Some(a), Some(b)) => a == b,
        (None, None) => true,
        _ => false,
    }
}

impl ScannerCapabilities {
    /// The first entry for a source.
    pub fn source(&self, source: CapabilitySource) -> (r: Option<&SourceCapabilities>)
        ensures
            match r {
                Some(found) => entry_index(self@.sources, Some(source)) < self@.sources.len()
                    && found@ == self@.sources[entry_index(self@.sources, Some(source))],
                None => entry_index(self@.sources, Some(source)) == self@.sources.len(),
            },
    {
        let i: usize = find_entry(&self.sources, Some(source));
        if i < self.sources.len() {
            assert(self@.sources[i as int] == self.sources@[i as int]@);
            Some(&self.sources[i])
        } else {
            None
        }
    }

    /// The entry for a source, or one of which nothing is known; what holds for all sources is added
    /// to it.
    pub fn source_or_default(&self, source: CapabilitySource) -> (r: SourceCapabilities)
        ensures
            r@ == source_with_shared(self@.sources, source),
    {
        let mut selected = match self.source(source) {
            Some(found) => found.clone(),
            None => SourceCapabilities::empty(Some(source)),
        };
        let i: usize = find_entry(&self.sources, None);
        if i < self.sources.len() {
            let shared = &self.sources[i];
            assert(self@.sources[i as int] == shared@);
            let ghost start = selected@;
            let ghost goal = merged(start, shared@);
            push_all_unique(&mut selected.color_modes, &shared.color_modes);
            push_all_unique(&mut selected.document_formats, &shared.document_formats);
            let mut k: usize = 0;
            while k < shared.resolutions.len()
                invariant
                    k <= shared.resolutions@.len(),
                    selected.source == start.source,
                    strings(selected.color_modes@) == goal.color_modes,
                    strings(selected.document_formats@) == goal.document_formats,
                    selected.max_width == start.max_width,
                    selected.max_height == start.max_height,
                    selected.resolutions@ == with_resolutions(
                        start.resolutions,
                        shared.resolutions@.take(k as int),
                    ),
                decreases shared.resolutions@.len() - k,
            {
                let pair = shared.resolutions[k];
                if !has_pair(&selected.resolutions, pair) {
                    selected.resolutions.push(pair);
                }
                k += 1;
                assert(shared.resolutions@.take(k as int).drop_last()
                    =~= shared.resolutions@.take(k - 1));
            }
            assert(shared.resolutions@.take(k as int) =~= shared.resolutions@);
            if selected.max_width.is_none() {
                selected.max_width = shared.max_width;
            }
            if selected.max_height.is_none() {
                selected.max_height = shared.max_height;
            }
            assert(selected@ =~= goal);
        }
        selected
    }
}

fn has_pair(pairs: &Vec<(u32, u32)>, pair: (u32, u32)) -> (r: bool)
    ensures
        r == pairs@.contains(pair),
{
    let mut i: usize = 0;
    while i < pairs.len()
        invariant
            i <= pairs@.len(),
            forall|j: int| 0 <= j < i ==> pairs@[j] != pair,
        decreases pairs@.len() - i,
    {
        if pairs[i].0 == pair.0 && pairs[i].1 == pair.1 {
            assert(pairs@[i as int] == pair);
            return true;
        }
        i += 1;
    }
    false
}

/// Resolutions with those of another list that they lack, in that list's order.
pub open spec fn with_resolutions(own: Seq<(u32, u32)>, more: Seq<(u32, u32)>) -> Seq<(u32, u32)>
    decreases more.len(),
{
    if more.len() == 0 {
        own
    } else {
        let so_far = with_resolutions(own, more.drop_last());
        if so_far.contains(more.last()) {
            so_far
        } else {
            so_far.push(more.last())
        }
    }
}

/// Texts with a text added, unless it is blank or there but for the case of its letters.
pub open spec fn with_unique(values: Seq<Seq<char>>, value: Seq<char>) -> Seq<Seq<char>> {
    let text = trim(value);
    if text.len() == 0 || exists|i: int|
        0 <= i < values.len() && #[trigger] same_letters(values[i], text) {
        values
    } else {
        values.push(text)
    }
}

/// Texts with those of another list added one by one.
pub open spec fn with_all_unique(values: Seq<Seq<char>>, more: Seq<Seq<char>>) -> Seq<Seq<char>>
    decreases more.len(),
{
    if more.len() == 0 {
        values
    } else {
        with_unique(with_all_unique(values, more.drop_last()), more.last())
    }
}

/// Adds a text, unless it is blank or there but for the case of its letters.
pub fn push_unique(values: &mut Vec<String>, value: &str)
    ensures
        strings(final(values)@) == with_unique(strings(old(values)@), value@),
{
    let chars = chars_of(value);
    let text = trimmed(&chars);
    if text.len() == 0 {
        return;
    }
    let mut i: usize = 0;
    while i < values.len()
        invariant
            i <= values@.len(),
            values@ == old(values)@,
            text@ == trim(value@),
            text@.len() > 0,
            forall|j: int| 0 <= j < i ==> !#[trigger] same_letters(strings(values@)[j], text@),
        decreases values@.len() - i,
    {
        let candidate = chars_of(values[i].as_str());
        assert(strings(values@)[i as int] == candidate@);
        if equal_letters(&candidate, text) {
            assert(same_letters(strings(values@)[i as int], text@));
            return;
        }
        i += 1;
    }
    values.push(text_of(text));
    assert(strings(values@) =~= strings(old(values)@).push(text@));
}

fn push_all_unique(values: &mut Vec<String>, more: &Vec<String>)
    ensures
        strings(final(values)@) == with_all_unique(strings(old(values)@), strings(more@)),
{
    let mut i: usize = 0;
    while i < more.len()
        invariant
            i <= more@.len(),
            strings(values@) == with_all_unique(
                strings(old(values)@),
                strings(more@).take(i as int),
            ),
        decreases more@.len() - i,
    {
        push_unique(values, more[i].as_str());
        i += 1;
        assert(strings(more@).take(i as int).drop_last() =~= strings(more@).take(i - 1));
    }
    assert(strings(more@).take(i as int) =~= strings(more@));
}

/// The other option where the first is empty.
pub open spec fn or_else(a: Option<u32>, b: Option<u32>) -> Option<u32> {
    if a is Some {
        a
    } else {
        b
    }
}

/// A source with what holds for all sources added.
pub open spec fn merged(own: SourceCaps, shared: SourceCaps) -> SourceCaps {
    SourceCaps {
        source: own.source,
        color_modes: with_all_unique(own.color_modes, shared.color_modes),
        document_formats: with_all_unique(own.document_formats, shared.document_formats),
        resolutions: with_resolutions(own.resolutions, shared.resolutions),
        max_width: or_else(own.max_width, shared.max_width),
        max_height: or_else(own.max_height, shared.max_height),
    }
}

/// The entry for a source, or an empty one, with what holds for all sources added.
pub open spec fn source_with_shared(
    sources: Seq<SourceCaps>,
    source: CapabilitySource,
) -> SourceCaps {
    let i = entry_index(sources, Some(source));
    let own = if i < sources.len() {
        sources[i]
    } else {
        empty_source(Some(source))
    };
    let k = entry_index(sources, None);
    if k < sources.len() {
        merged(own, sources[k])
    } else {
        own
    }
}

// ---------------------------------------------------------------------------
// Element names and paths
// ---------------------------------------------------------------------------

/// What follows the last occurrence of a character; the whole text where there is none.
pub open spec fn after_last(s: Seq<char>, c: char) -> Seq<char>
    decreases s.len(),
{
    if s.len() == 0 || s.last() == c {
        Seq::empty()
    } else {
        after_last(s.drop_last(), c).push(s.last())
    }
}

/// A brace.
pub open spec fn is_brace(c: char) -> bool {
    c == '{' || c == '}'
}

/// The text without leading braces.
pub open spec fn unbraced_start(s: Seq<char>) -> Seq<char>
    decreases s.len(),
{
    if s.len() > 0 && is_brace(s[0]) {
        unbraced_start(s.skip(1))
    } else {
        s
    }
}

/// The text without trailing braces.
pub open spec fn unbraced_end(s: Seq<char>) -> Seq<char>
    decreases s.len(),
{
    if s.len() > 0 && is_brace(s.last()) {
        unbraced_end(s.drop_last())
    } else {
        s
    }
}

/// The name of an element without its prefix and braces, in lower case; empty where the raw name
/// is not text.
pub open spec fn local_name_of(name: Seq<u8>) -> Seq<char> {
    let text = if valid_utf8(name) {
        decode_utf8(name)
    } else {
        Seq::empty()
    };
    lower_all(unbraced_end(unbraced_start(after_last(text, ':'))))
}

/// The name of an element without its prefix and braces, in lower case.
pub fn local_name(name: &[u8]) -> (r: Vec<char>)
    ensures
        r@ == local_name_of(name@),
{
    let text: Vec<char> = match utf8_text(name) {
        Some(text) => chars_of(text.as_str()),
        None => Vec::new(),
    };
    let ghost whole = if valid_utf8(name@) {
        decode_utf8(name@)
    } else {
        Seq::empty()
    };
    assert(text@ =~= whole);
    let total: usize = text.len();
    let mut start: usize = total;
    assert(whole.take(total as int) =~= whole);
    assert(after_last(whole, ':') + Seq::empty() =~= after_last(whole, ':'));
    assert(whole.skip(total as int) =~= Seq::empty());
    while start > 0 && text[start - 1] != ':'
        invariant
            start <= total,
            total == text@.len(),
            text@ == whole,
            after_last(whole.take(start as int), ':') + whole.skip(start as int) == after_last(
                whole,
                ':',
            ),
        decreases start,
    {
        proof {
            let t = whole.take(start as int);
            assert(t.drop_last() =~= whole.take(start - 1));
            assert(after_last(t.drop_last(), ':').push(t.last()) + whole.skip(start as int)
                =~= after_last(t.drop_last(), ':') + whole.skip(start - 1));
        }
        start -= 1;
    }
    let rest = slice_subrange(&text, start, text.len());
    assert(rest@ =~= after_last(whole, ':')) by {
        assert(rest@ =~= whole.skip(start as int));
        assert(after_last(whole.take(start as int), ':') =~= Seq::<char>::empty());
    }
    let mut left: usize = 0;
    assert(rest@.skip(0) =~= rest@);
    while left < rest.len() && (rest[left] == '{' || rest[left] == '}')
        invariant
            left <= rest@.len(),
            unbraced_start(rest@.skip(left as int)) == unbraced_start(rest@),
        decreases rest@.len() - left,
    {
        assert(rest@.skip(left as int).skip(1) =~= rest@.skip(left + 1));
        left += 1;
    }
    let middle = slice_subrange(rest, left, rest.len());
    assert(middle@ =~= rest@.skip(left as int));
    let mut right: usize = middle.len();
    assert(middle@.take(right as int) =~= middle@);
    while right > 0 && (middle[right - 1] == '{' || middle[right - 1] == '}')
        invariant
            right <= middle@.len(),
            unbraced_end(middle@.take(right as int)) == unbraced_end(middle@),
        decreases right,
    {
        assert(middle@.take(right as int).drop_last() =~= middle@.take(right - 1));
        right -= 1;
    }
    let bare = slice_subrange(middle, 0, right);
    assert(bare@ =~= middle@.take(right as int));
    lower_chars(bare)
}

/// Texts joined by a slash.
pub open spec fn slashed(parts: Seq<Seq<char>>) -> Seq<char>
    decreases parts.len(),
{
    if parts.len() == 0 {
        Seq::empty()
    } else if parts.len() == 1 {
        parts[0]
    } else {
        slashed(parts.drop_last()).push('/') + parts.last()
    }
}

fn join_slashed(parts: &Vec<Vec<char>>) -> (r: Vec<char>)
    ensures
        r@ == slashed(texts(parts@)),
{
    let mut r: Vec<char> = Vec::new();
    let mut i: usize = 0;
    while i < parts.len()
        invariant
            i <= parts@.len(),
            r@ == slashed(texts(parts@).take(i as int)),
        decreases parts@.len() - i,
    {
        if i > 0 {
            r.push('/');
        }
        let mut part = copied(&parts[i]);
        r.append(&mut part);
        i += 1;
        proof {
            let t = texts(parts@).take(i as int);
            assert(t.drop_last() =~= texts(parts@).take(i - 1));
            assert(t.last() == parts@[i - 1]@);
            if i == 1 {
                assert(slashed(texts(parts@).take(0)) =~= Seq::<char>::empty());
                assert(r@ =~= t[0]);
            } else {
                assert(r@ =~= slashed(t));
            }
        }
    }
    assert(texts(parts@).take(i as int) =~= texts(parts@));
    r
}

/// The source that a path of element names stands for.
pub open spec fn source_of_path(path: Seq<Seq<char>>) -> Option<CapabilitySource> {
    let text = slashed(path);
    if contains_text(text, "adfduplex"@) || contains_text(text, "duplexadf"@) {
        Some(CapabilitySource::AdfDuplex)
    } else if contains_text(text, "adfsimplex"@) || contains_text(text, "simplexadf"@)
        || contains_text(text, "feeder"@) || contains_text(text, "adf"@) {
        Some(CapabilitySource::AdfSimplex)
    } else if contains_text(text, "film"@) || contains_text(text, "transparen"@) {
        Some(CapabilitySource::Film)
    } else if contains_text(text, "platen"@) || contains_text(text, "flatbed"@) {
        Some(CapabilitySource::Platen)
    } else {
        None
    }
}

/// The source that a path of element names stands for.
pub fn source_for_path(path: &Vec<Vec<char>>) -> (r: Option<CapabilitySource>)
    ensures
        r == source_of_path(texts(path@)),
{
    let text = join_slashed(path);
    if has_text(&text, &chars_of("adfduplex")) || has_text(&text, &chars_of("duplexadf")) {
        Some(CapabilitySource::AdfDuplex)
    } else if has_text(&text, &chars_of("adfsimplex")) || has_text(&text, &chars_of("simplexadf"))
        || has_text(&text, &chars_of("feeder")) || has_text(&text, &chars_of("adf")) {
        Some(CapabilitySource::AdfSimplex)
    } else if has_text(&text, &chars_of("film")) || has_text(&text, &chars_of("transparen")) {
        Some(CapabilitySource::Film)
    } else if has_text(&text, &chars_of("platen")) || has_text(&text, &chars_of("flatbed")) {
        Some(CapabilitySource::Platen)
    } else {
        None
    }
}

/// The source that the text of an input source names.
pub open spec fn source_of_text(value: Seq<char>) -> Option<CapabilitySource> {
    let text = lower_all(value);
    if contains_text(text, "platen"@) || contains_text(text, "flatbed"@) {
        Some(CapabilitySource::Platen)
    } else if contains_text(text, "duplex"@) {
        Some(CapabilitySource::AdfDuplex)
    } else if contains_text(text, "adf"@) || contains_text(text, "feed"@) {
        Some(CapabilitySource::AdfSimplex)
    } else if contains_text(text, "film"@) || contains_text(text, "transparen"@) {
        Some(CapabilitySource::Film)
    } else {
        None
    }
}

fn source_for_text(value: &str) -> (r: Option<CapabilitySource>)
    ensures
        r == source_of_text(value@),
{
    let text = lower_chars(&chars_of(value));
    if has_text(&text, &chars_of("platen")) || has_text(&text, &chars_of("flatbed")) {
        Some(CapabilitySource::Platen)
    } else if has_text(&text, &chars_of("duplex")) {
        Some(CapabilitySource::AdfDuplex)
    } else if has_text(&text, &chars_of("adf")) || has_text(&text, &chars_of("feed")) {
        Some(CapabilitySource::AdfSimplex)
    } else if has_text(&text, &chars_of("film")) || has_text(&text, &chars_of("transparen")) {
        Some(CapabilitySource::Film)
    } else {
        None
    }
}

// ---------------------------------------------------------------------------
// Reading the document
// ---------------------------------------------------------------------------

/// The entries with one for a source: a new one is added where there is none.
pub open spec fn with_entry(
    sources: Seq<SourceCaps>,
    source: Option<CapabilitySource>,
) -> Seq<SourceCaps> {
    if entry_index(sources, source) < sources.len() {
        sources
    } else {
        sources.push(empty_source(source))
    }
}

/// Makes sure of an entry for a source, and gives its index.
pub fn source_capabilities_mut(
    sources: &mut Vec<SourceCapabilities>,
    source: Option<CapabilitySource>,
) -> (r: usize)
    ensures
        source_list(final(sources)@) == with_entry(source_list(old(sources)@), source),
        r == entry_index(source_list(final(sources)@), source),
        r < final(sources)@.len(),
{
    let i: usize = find_entry(sources, source);
    if i == sources.len() {
        sources.push(SourceCapabilities::empty(source));
        proof {
            let before = source_list(old(sources)@);
            assert(source_list(sources@) =~= before.push(empty_source(source)));
            lemma_entry_index(before, source);
            lemma_entry_index_is(source_list(sources@), source, i as int);
        }
    }
    i
}

/// A number of at most 32 bits in a text, with white space around it.
pub open spec fn u32_of(value: Seq<char>) -> Option<u32> {
    match unsigned_value(trim(value), u32::MAX as int) {
        Some(number) => Some(number as u32),
        None => None,
    }
}

fn read_u32(value: &str) -> (r: Option<u32>)
    ensures
        r == u32_of(value@),
{
    let chars = chars_of(value);
    match read_unsigned(trimmed(&chars), u32::MAX as u64) {
        Some(number) => Some(number as u32),
        None => None,
    }
}

/// How far the reading of a capabilities document has come.
#[verifier::ext_equal]
pub struct Reading {
    /// The names of the open elements.
    pub path: Seq<Seq<char>>,
    /// The last text of each open element.
    pub values: Seq<Seq<char>>,
    pub caps: Caps,
    /// The numbers of the resolution that is being read.
    pub resolution: Option<(Option<u32>, Option<u32>)>,
    /// Whether the document's own element was seen.
    pub seen: bool,
}

/// A sequence without its last element, where it has one.
pub open spec fn popped<T>(s: Seq<T>) -> Seq<T> {
    if s.len() > 0 {
        s.drop_last()
    } else {
        s
    }
}

/// The last text, or none.
pub open spec fn last_text(s: Seq<Seq<char>>) -> Seq<char> {
    if s.len() > 0 {
        s.last()
    } else {
        Seq::empty()
    }
}

/// A start tag opens an element.
pub open spec fn started(st: Reading, name: Seq<char>) -> Reading {
    Reading {
        path: st.path.push(name),
        values: st.values.push(Seq::empty()),
        caps: st.caps,
        resolution: if name == "resolution"@ {
            Some((None, None))
        } else {
            st.resolution
        },
        seen: st.seen || name == "scannercapabilities"@,
    }
}

/// A text is that of the innermost open element.
pub open spec fn texted(st: Reading, text: Seq<char>) -> Reading {
    if st.values.len() > 0 {
        Reading { values: st.values.drop_last().push(text), ..st }
    } else {
        st
    }
}

/// What the end of an element with a name and a text makes of the entry of its source.
pub open spec fn entry_ended(
    entry: SourceCaps,
    name: Seq<char>,
    value: Seq<char>,
    resolution: Option<(Option<u32>, Option<u32>)>,
) -> SourceCaps {
    if name == "colormode"@ {
        SourceCaps { color_modes: with_unique(entry.color_modes, value), ..entry }
    } else if name == "documentformat"@ || name == "documentformatext"@ {
        SourceCaps { document_formats: with_unique(entry.document_formats, value), ..entry }
    } else if name == "maxwidth"@ || name == "maxscanwidth"@ {
        SourceCaps { max_width: u32_of(value), ..entry }
    } else if name == "maxheight"@ || name == "maxscanheight"@ {
        SourceCaps { max_height: u32_of(value), ..entry }
    } else if name == "resolution"@ {
        match resolution {
            Some((Some(x), Some(y))) => SourceCaps {
                resolutions: entry.resolutions.push((x, y)),
                ..entry
            },
            _ => entry,
        }
    } else {
        entry
    }
}

/// What the end of an element makes of the resolution that is being read.
pub open spec fn resolution_ended(
    resolution: Option<(Option<u32>, Option<u32>)>,
    name: Seq<char>,
    value: Seq<char>,
) -> Option<(Option<u32>, Option<u32>)> {
    match resolution {
        None => None,
        Some((x, y)) => if name == "xresolution"@ {
            Some((u32_of(value), y))
        } else if name == "yresolution"@ {
            Some((x, u32_of(value)))
        } else if name == "resolution"@ {
            None
        } else {
            resolution
        },
    }
}

/// An end tag closes the innermost element and files its text under the source of its path.
pub open spec fn ended(st: Reading, name: Seq<char>) -> Reading {
    let value = last_text(st.values);
    let source = source_of_path(st.path);
    let listed = with_entry(st.caps.sources, source);
    let i = entry_index(listed, source);
    let filed = listed.update(i, entry_ended(listed[i], name, value, st.resolution));
    Reading {
        path: popped(st.path),
        values: popped(st.values),
        caps: Caps {
            make_and_model: if name == "makeandmodel"@ {
                if value.len() > 0 {
                    Some(value)
                } else {
                    None
                }
            } else {
                st.caps.make_and_model
            },
            root: st.caps.root,
            sources: if name == "inputsource"@ && source_of_text(value) is Some {
                with_entry(filed, source_of_text(value))
            } else {
                filed
            },
        },
        resolution: resolution_ended(st.resolution, name, value),
        seen: st.seen,
    }
}

/// What one event makes of the reading; nothing where a text cannot be read.
pub open spec fn advanced(st: Reading, item: XmlItem) -> Option<Reading> {
    match item {
        XmlItem::Start(name) => Some(started(st, local_name_of(name))),
        XmlItem::Text(Some(text)) => Some(texted(st, text)),
        XmlItem::Text(None) => if st.values.len() > 0 {
            None
        } else {
            Some(st)
        },
        XmlItem::CData(bytes) => Some(texted(st, lossy_utf8(bytes))),
        XmlItem::End(name) => Some(ended(st, local_name_of(name))),
        _ => Some(st),
    }
}

/// What is read from the events that remain.
pub open spec fn finished(st: Reading, rest: Seq<XmlItem>) -> Option<Caps>
    decreases rest.len(),
{
    if rest.len() == 0 || rest[0] is Eof {
        if st.seen {
            Some(st.caps)
        } else {
            None
        }
    } else if rest[0] is Broken {
        None
    } else {
        match advanced(st, rest[0]) {
            None => None,
            Some(next) => finished(next, rest.skip(1)),
        }
    }
}

/// The reading before the first event.
pub open spec fn unread(root: Seq<char>) -> Reading {
    Reading {
        path: Seq::empty(),
        values: Seq::empty(),
        caps: Caps { make_and_model: None, root, sources: Seq::empty() },
        resolution: None,
        seen: false,
    }
}

/// The capabilities that the events of a document tell.
pub open spec fn capabilities_of(events: Seq<XmlItem>, root: Seq<char>) -> Option<Caps> {
    finished(unread(root), events)
}

struct CapabilityReader {
    path: Vec<Vec<char>>,
    values: Vec<String>,
    caps: ScannerCapabilities,
    resolution: Option<(Option<u32>, Option<u32>)>,
    seen: bool,
}

impl View for CapabilityReader {
    type V = Reading;

    closed spec fn view(&self) -> Reading {
        Reading {
            path: texts(self.path@),
            values: strings(self.values@),
            caps: self.caps@,
            resolution: self.resolution,
            seen: self.seen,
        }
    }
}

fn is_name(name: &Vec<char>, text: &str) -> (r: bool)
    ensures
        r == (name@ == text@),
{
    same_chars(name, &chars_of(text))
}

impl CapabilityReader {
    fn start(&mut self, name: Vec<char>)
        ensures
            final(self)@ == started(old(self)@, name@),
    {
        if is_name(&name, "scannercapabilities") {
            self.seen = true;
        }
        if is_name(&name, "resolution") {
            self.resolution = Some((None, None));
        }
        let ghost given = name@;
        self.path.push(name);
        self.values.push(String::new());
        assert(texts(self.path@) =~= texts(old(self).path@).push(given));
        assert(strings(self.values@) =~= strings(old(self).values@).push(Seq::empty()));
        assert(self@ =~= started(old(self)@, given));
    }

    fn text(&mut self, text: String)
        ensures
            final(self)@ == texted(old(self)@, text@),
    {
        if self.values.len() > 0 {
            let ghost given = text@;
            let _before = self.values.pop();
            assert(strings(self.values@) =~= strings(old(self).values@).drop_last());
            let ghost middle = strings(self.values@);
            self.values.push(text);
            assert(strings(self.values@) =~= middle.push(given));
            assert(self@ =~= texted(old(self)@, given));
        }
    }

    #[verifier::rlimit(60)]
    fn end(&mut self, name: Vec<char>)
        ensures
            final(self)@ == ended(old(self)@, name@),
    {
        let ghost st = old(self)@;
        let value: String = match self.values.pop() {
            Some(value) => value,
            None => String::new(),
        };
        proof {
            assert(strings(self.values@) =~= popped(st.values));
            assert(value@ =~= last_text(st.values));
        }
        let source = source_for_path(&self.path);
        let i: usize = source_capabilities_mut(&mut self.caps.sources, source);
        let ghost listed = with_entry(st.caps.sources, source);
        assert(source_list(self.caps.sources@) == listed);
        assert(listed[i as int] == self.caps.sources@[i as int]@);
        let mut entry = self.caps.sources.remove(i);
        let ghost start = entry@;
        let resolution = self.resolution;
        file_entry(&mut entry, &name, value.as_str(), resolution);
        self.caps.sources.insert(i, entry);
        let ghost filed = listed.update(i as int, entry_ended(start, name@, value@, resolution));
        assert(source_list(self.caps.sources@) =~= filed);
        if is_name(&name, "makeandmodel") {
            self.caps.make_and_model = if value.as_str().is_empty() {
                None
            } else {
                Some(value.clone())
            };
        }
        if is_name(&name, "inputsource") {
            let named = source_for_text(value.as_str());
            if named.is_some() {
                let _index: usize = source_capabilities_mut(&mut self.caps.sources, named);
            }
        }
        self.resolution = match self.resolution {
            None => None,
            Some((x, y)) => if is_name(&name, "xresolution") {
                Some((read_u32(value.as_str()), y))
            } else if is_name(&name, "yresolution") {
                Some((x, read_u32(value.as_str())))
            } else if is_name(&name, "resolution") {
                None
            } else {
                Some((x, y))
            },
        };
        let _closed = self.path.pop();
        assert(texts(self.path@) =~= popped(st.path));
        assert(self@ =~= ended(st, name@));
    }

    fn advance(&mut self, event: &XmlEvent) -> (r: bool)
        ensures
            match advanced(old(self)@, event@) {
                Some(next) => r && final(self)@ == next,
                None => !r,
            },
    {
        match event {
            XmlEvent::Start(name) => {
                self.start(local_name(name.as_slice()));
                true
            },
            XmlEvent::Text(Some(text)) => {
                self.text(text.clone());
                true
            },
            XmlEvent::Text(None) => {
                assert(strings(self.values@).len() == self.values@.len());
                self.values.len() == 0
            },
            XmlEvent::CData(bytes) => {
                self.text(lossy_text(bytes.as_slice()));
                true
            },
            XmlEvent::End(name) => {
                self.end(local_name(name.as_slice()));
                true
            },
            _ => true,
        }
    }
}

fn file_entry(
    entry: &mut SourceCapabilities,
    name: &Vec<char>,
    value: &str,
    resolution: Option<(Option<u32>, Option<u32>)>,
)
    ensures
        final(entry)@ == entry_ended(old(entry)@, name@, value@, resolution),
{
    if is_name(name, "colormode") {
        push_unique(&mut entry.color_modes, value);
    } else if is_name(name, "documentformat") || is_name(name, "documentformatext") {
        push_unique(&mut entry.document_formats, value);
    } else if is_name(name, "maxwidth") || is_name(name, "maxscanwidth") {
        entry.max_width = read_u32(value);
    } else if is_name(name, "maxheight") || is_name(name, "maxscanheight") {
        entry.max_height = read_u32(value);
    } else if is_name(name, "resolution") {
        match resolution {
            Some((Some(x), Some(y))) => {
                entry.resolutions.push((x, y));
            },
            _ => {},
        }
    }
}

/// The capabilities in an option.
pub open spec fn opt_caps(o: Option<ScannerCapabilities>) -> Option<Caps> {
    match o {
        Some(caps) => Some(caps@),
        None => None,
    }
}

/// The capabilities that the events of a document tell.
pub fn capabilities_from_events(events: &Vec<XmlEvent>, root: &str) -> (r: Option<
    ScannerCapabilities,
>)
    ensures
        opt_caps(r) == capabilities_of(items(events@), root@),
{
    let mut reader = CapabilityReader {
        path: Vec::new(),
        values: Vec::new(),
        caps: ScannerCapabilities { make_and_model: None, root: root.to_owned(), sources: Vec::new() },
        resolution: None,
        seen: false,
    };
    proof {
        assert(texts(reader.path@) =~= Seq::<Seq<char>>::empty());
        assert(strings(reader.values@) =~= Seq::<Seq<char>>::empty());
        assert(source_list(reader.caps.sources@) =~= Seq::<SourceCaps>::empty());
        assert(reader@ =~= unread(root@));
        assert(items(events@).skip(0) =~= items(events@));
    }
    let mut i: usize = 0;
    while i < events.len()
        invariant
            i <= events@.len(),
            finished(reader@, items(events@).skip(i as int)) == capabilities_of(
                items(events@),
                root@,
            ),
        decreases events@.len() - i,
    {
        let ghost rest = items(events@).skip(i as int);
        assert(rest[0] == events@[i as int]@);
        assert(rest.skip(1) =~= items(events@).skip(i + 1));
        match &events[i] {
            XmlEvent::Eof => {
                return if reader.seen {
                    Some(reader.caps)
                } else {
                    None
                };
            },
            XmlEvent::Broken => {
                return None;
            },
            event => {
                if !reader.advance(event) {
                    return None;
                }
            },
        }
        i += 1;
    }
    if reader.seen {
        Some(reader.caps)
    } else {
        None
    }
}

/// The capabilities that a document tells; none where it is ill formed, holds what is no text, or
/// is no capabilities document.
pub fn parse_escl_capabilities(body: &[u8], root: &str) -> (r: Option<ScannerCapabilities>)
    ensures
        opt_caps(r) == capabilities_of(xml_events(body@), root@),
{
    let events = read_xml(body);
    capabilities_from_events(&events, root)
}

// ---------------------------------------------------------------------------
// What a document tells
// ---------------------------------------------------------------------------

/// The path of an element tells its source: feeders that scan both sides first, then other feeders,
/// film, and the glass.
#[verifier::spinoff_prover]
#[verifier::rlimit(60)]
pub proof fn paths_tell_their_source(path: Seq<Seq<char>>)
    ensures
        source_of_path(path) == Some(CapabilitySource::AdfDuplex) <==> contains_text(
            slashed(path),
            "adfduplex"@,
        ) || contains_text(slashed(path), "duplexadf"@),
        source_of_path(path) == Some(CapabilitySource::AdfSimplex) <==> (contains_text(
            slashed(path),
            "adf"@,
        ) || contains_text(slashed(path), "feeder"@) || contains_text(slashed(path), "adfsimplex"@)
            || contains_text(slashed(path), "simplexadf"@)) && !contains_text(
            slashed(path),
            "adfduplex"@,
        ) && !contains_text(slashed(path), "duplexadf"@),
        source_of_path(path) == Some(CapabilitySource::Film) ==> contains_text(slashed(path), "film"@)
            || contains_text(slashed(path), "transparen"@),
        source_of_path(path) == Some(CapabilitySource::Platen) ==> contains_text(
            slashed(path),
            "platen"@,
        ) || contains_text(slashed(path), "flatbed"@),
        source_of_path(path) is None ==> !contains_text(slashed(path), "platen"@) && !contains_text(
            slashed(path),
            "flatbed"@,
        ) && !contains_text(slashed(path), "film"@) && !contains_text(
            slashed(path),
            "transparen"@,
        ) && !contains_text(slashed(path), "adf"@) && !contains_text(slashed(path), "feeder"@),
{
}

/// A named input source is the glass where its text names the glass, a feeder that scans both sides where
/// it names such a one, and any other feeder or film where it names that.
pub proof fn texts_tell_their_source(value: Seq<char>)
    ensures
        source_of_text(value) == Some(CapabilitySource::Platen) <==> contains_text(
            lower_all(value),
            "platen"@,
        ) || contains_text(lower_all(value), "flatbed"@),
        source_of_text(value) == Some(CapabilitySource::AdfDuplex) ==> contains_text(
            lower_all(value),
            "duplex"@,
        ),
        source_of_text(value) == Some(CapabilitySource::AdfSimplex) ==> !contains_text(
            lower_all(value),
            "duplex"@,
        ) && (contains_text(lower_all(value), "adf"@) || contains_text(lower_all(value), "feed"@)),
        source_of_text(value) == Some(CapabilitySource::Film) ==> contains_text(
            lower_all(value),
            "film"@,
        ) || contains_text(lower_all(value), "transparen"@),
        source_of_text(value) is None ==> !contains_text(lower_all(value), "adf"@) && !contains_text(
            lower_all(value),
            "duplex"@,
        ) && !contains_text(lower_all(value), "film"@),
{
}

/// The reading after an element that holds nothing but a text.
pub open spec fn after_leaf(st: Reading, name: Seq<char>, text: Seq<char>) -> Reading {
    ended(texted(started(st, name), text), name)
}

/// An element that holds a text is filed under the source of its path: a color mode and a document format
/// are listed, a largest width and a largest height are kept as such. What is known of other sources
/// stays as it is, and so do the open elements.
#[verifier::spinoff_prover]
#[verifier::rlimit(60)]
pub proof fn elements_are_filed(st: Reading, name: Seq<char>, text: Seq<char>, other: int)
    requires
        name != "inputsource"@,
        0 <= other < st.caps.sources.len(),
    ensures
        ({
            let after = after_leaf(st, name, text);
            let source = source_of_path(st.path.push(name));
            let i = entry_index(after.caps.sources, source);
            let old_i = entry_index(st.caps.sources, source);
            let before = if old_i < st.caps.sources.len() {
                st.caps.sources[old_i]
            } else {
                empty_source(source)
            };
            let entry = after.caps.sources[i];
            &&& after.path == st.path
            &&& after.values == st.values
            &&& after.caps.root == st.caps.root
            &&& 0 <= i < after.caps.sources.len()
            &&& entry.source == source
            &&& other != i ==> after.caps.sources[other] == st.caps.sources[other]
            &&& name == "colormode"@ ==> entry.color_modes == with_unique(before.color_modes, text)
            &&& name != "colormode"@ ==> entry.color_modes == before.color_modes
            &&& name == "documentformat"@ ==> entry.document_formats == with_unique(
                before.document_formats,
                text,
            )
            &&& name == "documentformatext"@ ==> entry.document_formats == with_unique(
                before.document_formats,
                text,
            )
            &&& name == "maxwidth"@ ==> entry.max_width == u32_of(text)
            &&& name == "maxscanwidth"@ ==> entry.max_width == u32_of(text)
            &&& name != "maxwidth"@ && name != "maxscanwidth"@ ==> entry.max_width == before.max_width
            &&& name == "maxheight"@ ==> entry.max_height == u32_of(text)
            &&& name == "maxscanheight"@ ==> entry.max_height == u32_of(text)
            &&& name != "maxheight"@ && name != "maxscanheight"@ ==> entry.max_height
                == before.max_height
            &&& entry.resolutions == before.resolutions
            &&& name == "makeandmodel"@ && text.len() > 0 ==> after.caps.make_and_model == Some(text)
            &&& name != "makeandmodel"@ ==> after.caps.make_and_model == st.caps.make_and_model
        }),
{
    reveal_strlit("colormode");
    reveal_strlit("documentformat");
    reveal_strlit("documentformatext");
    reveal_strlit("maxwidth");
    reveal_strlit("maxscanwidth");
    reveal_strlit("maxheight");
    reveal_strlit("maxscanheight");
    reveal_strlit("resolution");
    assert("colormode"@[0] == 'c' && "documentformat"@[0] == 'd' && "documentformatext"@[0] == 'd');
    assert("resolution"@[0] == 'r' && "maxwidth"@[0] == 'm' && "maxheight"@[0] == 'm');
    assert("maxwidth"@[3] == 'w' && "maxheight"@[3] == 'h');
    assert("maxscanwidth"@[7] == 'w' && "maxscanheight"@[7] == 'h');
    assert("maxscanwidth"@[3] == 's' && "maxscanheight"@[3] == 's');
    let mid = texted(started(st, name), text);
    let source = source_of_path(st.path.push(name));
    let listed = with_entry(st.caps.sources, source);
    let i = entry_index(listed, source);
    lemma_entry_index(st.caps.sources, source);
    lemma_entry_index(listed, source);
    lemma_entry_index_is(listed, source, entry_index(st.caps.sources, source));
    let after = after_leaf(st, name, text);
    assert(mid.values =~= st.values.push(text));
    assert(mid.path =~= st.path.push(name));
    assert(after.path =~= st.path);
    assert(after.values =~= st.values);
    lemma_entry_index_is(after.caps.sources, source, i);
}

/// A resolution is listed with its horizontal number first, under the source of its path, where it has
/// both numbers.
#[verifier::spinoff_prover]
#[verifier::rlimit(60)]
pub proof fn resolutions_are_listed(st: Reading, x: Seq<char>, y: Seq<char>)
    ensures
        ({
            let opened = started(st, "resolution"@);
            let first = after_leaf(opened, "xresolution"@, x);
            let second = after_leaf(first, "yresolution"@, y);
            let swapped = after_leaf(after_leaf(opened, "yresolution"@, y), "xresolution"@, x);
            second.resolution == Some((u32_of(x), u32_of(y))) && swapped.resolution == Some(
                (u32_of(x), u32_of(y)),
            )
        }),
        forall|entry: SourceCaps, a: u32, b: u32|
            #[trigger] entry_ended(entry, "resolution"@, x, Some((Some(a), Some(b)))).resolutions
                == entry.resolutions.push((a, b)),
{
    reveal_strlit("resolution");
    reveal_strlit("xresolution");
    reveal_strlit("yresolution");
    reveal_strlit("colormode");
    reveal_strlit("documentformat");
    reveal_strlit("documentformatext");
    reveal_strlit("maxwidth");
    reveal_strlit("maxscanwidth");
    reveal_strlit("maxheight");
    reveal_strlit("maxscanheight");
    assert("resolution"@[0] == 'r' && "xresolution"@[0] == 'x' && "yresolution"@[0] == 'y');
    assert("colormode"@[0] == 'c' && "documentformat"@[0] == 'd' && "documentformatext"@[0] == 'd');
    assert("maxwidth"@[0] == 'm' && "maxheight"@[0] == 'm');
    assert("maxscanwidth"@[0] == 'm' && "maxscanheight"@[0] == 'm');
}

proof fn lemma_finished(st: Reading, rest: Seq<XmlItem>)
    requires
        finished(st, rest) is Some,
    ensures
        finished(st, rest)->0.root == st.caps.root,
        st.seen || exists|i: int|
            0 <= i < rest.len() && #[trigger] rest[i] is Start && local_name_of(rest[i]->Start_0)
                == "scannercapabilities"@,
    decreases rest.len(),
{
    if rest.len() == 0 || rest[0] is Eof {
    } else {
        let next = advanced(st, rest[0])->0;
        lemma_finished(next, rest.skip(1));
        if !st.seen {
            if next.seen {
                assert(rest[0] is Start);
            } else {
                let i = choose|i: int|
                    0 <= i < rest.skip(1).len() && #[trigger] rest.skip(1)[i] is Start
                        && local_name_of(rest.skip(1)[i]->Start_0) == "scannercapabilities"@;
                assert(rest[i + 1] == rest.skip(1)[i]);
            }
        }
    }
}

/// Capabilities are read only from a document with the element of one, keep the root under which it was
/// found, and never from one that is ill formed.
#[verifier::spinoff_prover]
#[verifier::rlimit(60)]
pub proof fn capabilities_need_their_element(events: Seq<XmlItem>, root: Seq<char>)
    requires
        capabilities_of(events, root) is Some,
    ensures
        capabilities_of(events, root)->0.root == root,
        exists|i: int|
            0 <= i < events.len() && #[trigger] events[i] is Start && local_name_of(
                events[i]->Start_0,
            ) == "scannercapabilities"@,
{
    lemma_finished(unread(root), events);
}

proof fn lemma_all_unique(values: Seq<Seq<char>>, more: Seq<Seq<char>>)
    ensures
        with_all_unique(values, more).len() >= values.len(),
        with_all_unique(values, more).take(values.len() as int) == values,
        forall|k: int|
            #![trigger with_all_unique(values, more)[k]]
            values.len() <= k < with_all_unique(values, more).len() ==> exists|j: int|
                0 <= j < more.len() && #[trigger] trim(more[j]) == with_all_unique(values, more)[k],
        forall|j: int|
            0 <= j < more.len() && trim(#[trigger] more[j]).len() > 0 ==> exists|k: int|
                0 <= k < with_all_unique(values, more).len() && #[trigger] same_letters(
                    with_all_unique(values, more)[k],
                    trim(more[j]),
                ),
    decreases more.len(),
{
    if more.len() == 0 {
        assert(values.take(values.len() as int) =~= values);
    } else {
        let shorter = more.drop_last();
        let part = with_all_unique(values, shorter);
        let all = with_all_unique(values, more);
        lemma_all_unique(values, shorter);
        let text = trim(more.last());
        assert(forall|c: Seq<char>| #[trigger] same_letters(c, c));
        assert(all.take(values.len() as int) =~= part.take(values.len() as int));
        assert forall|k: int| #![trigger all[k]] values.len() <= k < all.len() implies exists|j: int|
            0 <= j < more.len() && #[trigger] trim(more[j]) == all[k] by {
            if k < part.len() {
                let j = choose|j: int|
                    0 <= j < shorter.len() && #[trigger] trim(shorter[j]) == part[k];
                assert(trim(more[j]) == all[k]);
            } else {
                assert(trim(more[more.len() - 1]) == all[k]);
            }
        }
        assert forall|j: int| 0 <= j < more.len() && trim(#[trigger] more[j]).len() > 0 implies exists|
            k: int,
        |
            0 <= k < all.len() && #[trigger] same_letters(all[k], trim(more[j])) by {
            if j < shorter.len() {
                assert(shorter[j] == more[j]);
                let k = choose|k: int|
                    0 <= k < part.len() && #[trigger] same_letters(part[k], trim(shorter[j]));
                assert(all[k] == part[k]);
                assert(same_letters(all[k], trim(more[j])));
            } else if all.len() > part.len() {
                assert(all[part.len() as int] == text);
                assert(same_letters(all[part.len() as int], trim(more[j])));
            } else {
                let k = choose|k: int| 0 <= k < part.len() && #[trigger] same_letters(part[k], text);
                assert(same_letters(all[k], trim(more[j])));
            }
        }
    }
}

proof fn lemma_resolutions(own: Seq<(u32, u32)>, more: Seq<(u32, u32)>)
    ensures
        with_resolutions(own, more).len() >= own.len(),
        with_resolutions(own, more).take(own.len() as int) == own,
        forall|p: (u32, u32)| #[trigger]
            with_resolutions(own, more).contains(p) <==> own.contains(p) || more.contains(p),
    decreases more.len(),
{
    if more.len() == 0 {
        assert(own.take(own.len() as int) =~= own);
    } else {
        let part = with_resolutions(own, more.drop_last());
        let all = with_resolutions(own, more);
        lemma_resolutions(own, more.drop_last());
        assert(all.take(own.len() as int) =~= part.take(own.len() as int));
        assert forall|p: (u32, u32)| #[trigger] all.contains(p) <==> own.contains(p)
            || more.contains(p) by {
            let shorter = more.drop_last();
            if more.contains(p) {
                let i = choose|i: int| 0 <= i < more.len() && more[i] == p;
                if i < shorter.len() {
                    assert(shorter[i] == p);
                    assert(part.contains(p));
                } else {
                    assert(p == more.last());
                }
            }
            if part.contains(p) {
                let i = choose|i: int| 0 <= i < part.len() && part[i] == p;
                assert(all[i] == p);
            }
            if shorter.contains(p) {
                let i = choose|i: int| 0 <= i < shorter.len() && shorter[i] == p;
                assert(more[i] == p);
            }
            if all.len() > part.len() {
                assert(all[part.len() as int] == more.last());
            }
            assert(more[more.len() - 1] == more.last());
            if all.contains(p) && !part.contains(p) {
                let i = choose|i: int| 0 <= i < all.len() && all[i] == p;
                if i < part.len() {
                    assert(part[i] == p);
                }
            }
        }
    }
}

/// What holds for all sources is added to what a source says itself and replaces none of it: its own
/// values come first, a shared value is added where the source lacks it, and its own limits stand.
#[verifier::spinoff_prover]
#[verifier::rlimit(60)]
pub proof fn shared_capabilities_are_added(sources: Seq<SourceCaps>, source: CapabilitySource, i: int, k: int)
    requires
        0 <= i < sources.len(),
        0 <= k < sources.len(),
        sources[i].source == Some(source),
        forall|j: int| 0 <= j < i ==> (#[trigger] sources[j]).source != Some(source),
        sources[k].source is None,
        forall|j: int| 0 <= j < k ==> (#[trigger] sources[j]).source is Some,
    ensures
        ({
            let own = sources[i];
            let shared = sources[k];
            let r = source_with_shared(sources, source);
            &&& r.source == Some(source)
            &&& r.color_modes.take(own.color_modes.len() as int) == own.color_modes
            &&& r.document_formats.take(own.document_formats.len() as int) == own.document_formats
            &&& forall|j: int|
                0 <= j < shared.color_modes.len() && trim(#[trigger] shared.color_modes[j]).len() > 0
                    ==> exists|n: int|
                    0 <= n < r.color_modes.len() && #[trigger] same_letters(
                        r.color_modes[n],
                        trim(shared.color_modes[j]),
                    )
            &&& forall|j: int|
                0 <= j < shared.document_formats.len() && trim(
                    #[trigger] shared.document_formats[j],
                ).len() > 0 ==> exists|n: int|
                    0 <= n < r.document_formats.len() && #[trigger] same_letters(
                        r.document_formats[n],
                        trim(shared.document_formats[j]),
                    )
            &&& forall|p: (u32, u32)| #[trigger]
                r.resolutions.contains(p) <==> own.resolutions.contains(p)
                    || shared.resolutions.contains(p)
            &&& own.max_width is Some ==> r.max_width == own.max_width
            &&& own.max_width is None ==> r.max_width == shared.max_width
            &&& own.max_height is Some ==> r.max_height == own.max_height
            &&& own.max_height is None ==> r.max_height == shared.max_height
        }),
{
    lemma_entry_index_is(sources, Some(source), i);
    lemma_entry_index_is(sources, None, k);
    lemma_all_unique(sources[i].color_modes, sources[k].color_modes);
    lemma_all_unique(sources[i].document_formats, sources[k].document_formats);
    lemma_resolutions(sources[i].resolutions, sources[k].resolutions);
    let own = sources[i];
    let shared = sources[k];
    let r = source_with_shared(sources, source);
    assert(r == merged(own, shared));
    assert forall|j: int|
        0 <= j < shared.color_modes.len() && trim(#[trigger] shared.color_modes[j]).len()
            > 0 implies exists|n: int|
        0 <= n < r.color_modes.len() && #[trigger] same_letters(
            r.color_modes[n],
            trim(shared.color_modes[j]),
        ) by {
        let n = choose|n: int|
            0 <= n < with_all_unique(own.color_modes, shared.color_modes).len()
                && #[trigger] same_letters(
                with_all_unique(own.color_modes, shared.color_modes)[n],
                trim(shared.color_modes[j]),
            );
        assert(same_letters(r.color_modes[n], trim(shared.color_modes[j])));
    }
    assert forall|j: int|
        0 <= j < shared.document_formats.len() && trim(#[trigger] shared.document_formats[j]).len()
            > 0 implies exists|n: int|
        0 <= n < r.document_formats.len() && #[trigger] same_letters(
            r.document_formats[n],
            trim(shared.document_formats[j]),
        ) by {
        let n = choose|n: int|
            0 <= n < with_all_unique(own.document_formats, shared.document_formats).len()
                && #[trigger] same_letters(
                with_all_unique(own.document_formats, shared.document_formats)[n],
                trim(shared.document_formats[j]),
            );
        assert(same_letters(r.document_formats[n], trim(shared.document_formats[j])));
    }
    assert forall|p: (u32, u32)| #[trigger] r.resolutions.contains(p) <==> own.resolutions.contains(p)
        || shared.resolutions.contains(p) by {
        assert(with_resolutions(own.resolutions, shared.resolutions).contains(p)
            == r.resolutions.contains(p));
    }
}

} // verus!
