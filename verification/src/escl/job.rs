//! Scan jobs: where a scanner says that a job stands, and the canonical path of it.

use crate::escl::capabilities::{local_name, local_name_of};
use crate::escl::endpoint::{
    clean, endpoint_of, is_clean, opt_str, parse_endpoint, Endpoint, Target,
};
use crate::processing::opt_text;
use crate::text::{
    chars_of, contains_text, copied, equal_letters, find, find_char, has_prefix, has_text,
    lemma_find, lemma_find_is, same_chars, same_letters, split, split_chars, starts_with, text_of,
    texts, trim, trimmed,
};
use crate::xml::{items, read_xml, xml_events, XmlEvent, XmlItem};
use vstd::prelude::*;
use vstd::slice::slice_subrange;
use vstd::string::StringExecFns;

verus! {

// ---------------------------------------------------------------------------
// Where the job stands
// ---------------------------------------------------------------------------

/// The value of a header line named `location`.
pub open spec fn line_location(line: Seq<char>) -> Option<Seq<char>> {
    let k = find(line, ':');
    if k < line.len() && same_letters(line.take(k), "location"@) {
        Some(trim(line.skip(k + 1)))
    } else {
        None
    }
}

/// The value of the first line named `location`.
pub open spec fn first_location(lines: Seq<Seq<char>>) -> Option<Seq<char>>
    decreases lines.len(),
{
    if lines.len() == 0 {
        None
    } else if line_location(lines[0]) is Some {
        line_location(lines[0])
    } else {
        first_location(lines.skip(1))
    }
}

/// The text of the first job URI element among the events, if any comes before the end or an error.
pub open spec fn uri_text(inside: bool, events: Seq<XmlItem>) -> Option<Seq<char>>
    decreases events.len(),
{
    if events.len() == 0 {
        None
    } else {
        let rest = events.skip(1);
        match events[0] {
            XmlItem::Start(name) => uri_text(local_name_of(name) == "joburi"@, rest),
            XmlItem::Text(text) => if inside {
                text
            } else {
                uri_text(inside, rest)
            },
            XmlItem::End(name) => uri_text(inside && local_name_of(name) != "joburi"@, rest),
            XmlItem::Eof => None,
            XmlItem::Broken => None,
            _ => uri_text(inside, rest),
        }
    }
}

/// Where the job stands: the location header, or else the job URI of the body.
pub open spec fn location_of(headers: Seq<char>, events: Seq<XmlItem>) -> Option<Seq<char>> {
    match first_location(split(headers, '\n')) {
        Some(location) => Some(location),
        None => uri_text(false, events),
    }
}

fn header_location(headers: &str) -> (r: Option<String>)
    ensures
        opt_text(r) == first_location(split(headers@, '\n')),
{
    let chars = chars_of(headers);
    let lines = split_chars(&chars, '\n');
    let wanted = chars_of("location");
    let ghost all = split(headers@, '\n');
    assert(all.skip(0) =~= all);
    assert(lines@.len() == all.len());
    let mut i: usize = 0;
    while i < lines.len()
        invariant
            i <= lines@.len(),
            lines@.len() == all.len(),
            texts(lines@) == all,
            all == split(headers@, '\n'),
            wanted@ == "location"@,
            first_location(all.skip(i as int)) == first_location(all),
        decreases lines@.len() - i,
    {
        let line = &lines[i];
        assert(all.skip(i as int)[0] == line@) by {
            assert(texts(lines@)[i as int] == lines@[i as int]@);
        }
        let k: usize = find_char(line, ':');
        if k < line.len() {
            let name = slice_subrange(line.as_slice(), 0, k);
            assert(name@ =~= line@.take(k as int));
            if equal_letters(name, &wanted) {
                let value = slice_subrange(line.as_slice(), k + 1, line.len());
                assert(value@ =~= line@.skip(k + 1));
                return Some(text_of(trimmed(value)));
            }
        }
        assert(all.skip(i as int).skip(1) =~= all.skip(i + 1));
        i += 1;
    }
    None
}

fn body_location(events: &Vec<XmlEvent>) -> (r: Option<String>)
    ensures
        opt_text(r) == uri_text(false, items(events@)),
{
    let wanted = chars_of("joburi");
    let ghost all = items(events@);
    let mut inside = false;
    let mut i: usize = 0;
    assert(all.skip(0) =~= all);
    while i < events.len()
        invariant
            i <= events@.len(),
            all == items(events@),
            wanted@ == "joburi"@,
            uri_text(inside, all.skip(i as int)) == uri_text(false, all),
        decreases events@.len() - i,
    {
        assert(all.skip(i as int)[0] == events@[i as int]@);
        assert(all.skip(i as int).skip(1) =~= all.skip(i + 1));
        match &events[i] {
            XmlEvent::Start(name) => {
                inside = same_chars(&local_name(name.as_slice()), &wanted);
            },
            XmlEvent::Text(text) => {
                if inside {
                    return match text {
                        Some(text) => Some(text.clone()),
                        None => None,
                    };
                }
            },
            XmlEvent::End(name) => {
                if same_chars(&local_name(name.as_slice()), &wanted) {
                    inside = false;
                }
            },
            XmlEvent::Eof => {
                return None;
            },
            XmlEvent::Broken => {
                return None;
            },
            _ => {},
        }
        i += 1;
    }
    None
}

/// Where the job stands, from the headers and the events of the body.
pub fn location_from_events(headers: &str, events: &Vec<XmlEvent>) -> (r: Option<String>)
    ensures
        opt_text(r) == location_of(headers@, items(events@)),
{
    match header_location(headers) {
        Some(location) => Some(location),
        None => body_location(events),
    }
}

/// Where the job stands, from the headers and the body of the scanner's answer.
pub fn job_location(headers: &str, body: &[u8]) -> (r: Option<String>)
    ensures
        opt_text(r) == location_of(headers@, xml_events(body@)),
{
    let events = read_xml(body);
    location_from_events(headers, &events)
}

// ---------------------------------------------------------------------------
// The canonical path
// ---------------------------------------------------------------------------

/// The path of a location at an endpoint: an absolute path as it is, or the path of a URL that names
/// the endpoint itself.
pub open spec fn path_at(
    location: Seq<char>,
    target: Target,
    ipv6: Option<Seq<char>>,
) -> Option<Seq<char>> {
    if starts_with(location, "/"@) {
        Some(location)
    } else if starts_with(location, "https://"@) {
        url_path(location.skip(8), "https://"@, true, target, ipv6)
    } else if starts_with(location, "http://"@) {
        url_path(location.skip(7), "http://"@, false, target, ipv6)
    } else {
        None
    }
}

/// The path in a URL without its scheme, where its authority is that of the endpoint.
pub open spec fn url_path(
    rest: Seq<char>,
    scheme: Seq<char>,
    secure: bool,
    target: Target,
    ipv6: Option<Seq<char>>,
) -> Option<Seq<char>> {
    let k = find(rest, '/');
    if k < rest.len() && target.secure == secure && endpoint_of(scheme + rest.take(k), ipv6) == Some(
        target,
    ) {
        Some(rest.skip(k))
    } else {
        None
    }
}

/// Whether a segment of a path steps out of it.
pub open spec fn is_step(segment: Seq<char>) -> bool {
    segment == "."@ || segment == ".."@
}

/// Whether no segment of a path steps out of it.
pub open spec fn is_straight(path: Seq<char>) -> bool {
    forall|i: int| 0 <= i < split(path, '/').len() ==> !is_step(#[trigger] split(path, '/')[i])
}

/// Whether a path names a job: without a query or a fragment, below `ScanJobs`, and straight.
pub open spec fn is_job_path(path: Seq<char>) -> bool {
    find(path, '?') == path.len() && find(path, '#') == path.len() && contains_text(
        path,
        "/ScanJobs/"@,
    ) && is_straight(path)
}

/// The path without trailing slashes.
pub open spec fn unslashed(path: Seq<char>) -> Seq<char>
    decreases path.len(),
{
    if path.len() > 0 && path.last() == '/' {
        unslashed(path.drop_last())
    } else {
        path
    }
}

/// The canonical path of a job at a location, where it is one of the endpoint's own jobs.
pub open spec fn job_path(
    location: Seq<char>,
    target: Target,
    ipv6: Option<Seq<char>>,
) -> Option<Seq<char>> {
    if location.len() == 0 || !is_clean(location) {
        None
    } else {
        match path_at(location, target, ipv6) {
            Some(path) => if is_job_path(path) {
                Some(unslashed(path))
            } else {
                None
            },
            None => None,
        }
    }
}

fn job_path_ok(path: &[char]) -> (r: bool)
    ensures
        r == is_job_path(path@),
{
    if find_char(path, '?') < path.len() || find_char(path, '#') < path.len() || !has_text(
        path,
        &chars_of("/ScanJobs/"),
    ) {
        return false;
    }
    let segments = split_chars(path, '/');
    let one = chars_of(".");
    let two = chars_of("..");
    assert(segments@.len() == split(path@, '/').len());
    let mut i: usize = 0;
    while i < segments.len()
        invariant
            i <= segments@.len(),
            segments@.len() == split(path@, '/').len(),
            texts(segments@) == split(path@, '/'),
            one@ == "."@,
            two@ == ".."@,
            forall|j: int| 0 <= j < i ==> !is_step(#[trigger] split(path@, '/')[j]),
        decreases segments@.len() - i,
    {
        assert(texts(segments@)[i as int] == segments@[i as int]@);
        if same_chars(&segments[i], &one) || same_chars(&segments[i], &two) {
            assert(is_step(split(path@, '/')[i as int]));
            return false;
        }
        i += 1;
    }
    true
}

fn unslash(path: &[char]) -> (r: &[char])
    ensures
        r@ == unslashed(path@),
{
    let mut end: usize = path.len();
    assert(path@.take(end as int) =~= path@);
    while end > 0 && path[end - 1] == '/'
        invariant
            end <= path@.len(),
            unslashed(path@.take(end as int)) == unslashed(path@),
        decreases end,
    {
        assert(path@.take(end as int).drop_last() =~= path@.take(end - 1));
        end -= 1;
    }
    let r = slice_subrange(path, 0, end);
    assert(r@ =~= path@.take(end as int));
    r
}

fn path_of_url(rest: &[char], scheme: &str, secure: bool, endpoint: &Endpoint, ipv6: Option<&str>) -> (r:
    Option<Vec<char>>)
    ensures
        match r {
            Some(path) => url_path(rest@, scheme@, secure, endpoint@, opt_str(ipv6)) == Some(path@),
            None => url_path(rest@, scheme@, secure, endpoint@, opt_str(ipv6)) is None,
        },
{
    let k: usize = find_char(rest, '/');
    if k == rest.len() || endpoint.secure != secure {
        return None;
    }
    let authority = slice_subrange(rest, 0, k);
    assert(authority@ =~= rest@.take(k as int));
    let mut url = scheme.to_owned();
    url.append(text_of(authority).as_str());
    match parse_endpoint(url.as_str(), ipv6) {
        Some(named) => if named.same(endpoint) {
            let path = slice_subrange(rest, k, rest.len());
            assert(path@ =~= rest@.skip(k as int));
            Some(copied(path))
        } else {
            None
        },
        None => None,
    }
}

/// The canonical path of a job at a location, where it is one of the endpoint's own jobs.
pub fn normalize_job_location(location: &str, endpoint: &Endpoint, ipv6: Option<&str>) -> (r: Option<
    String,
>)
    ensures
        opt_text(r) == job_path(location@, endpoint@, opt_str(ipv6)),
{
    proof {
        reveal_strlit("https://");
        reveal_strlit("http://");
    }
    let chars = chars_of(location);
    if chars.len() == 0 || !clean(&chars) {
        return None;
    }
    let path: Vec<char> = if has_prefix(&chars, &chars_of("/")) {
        copied(&chars)
    } else if has_prefix(&chars, &chars_of("https://")) {
        let rest = slice_subrange(chars.as_slice(), 8, chars.len());
        assert(rest@ =~= location@.skip(8));
        match path_of_url(rest, "https://", true, endpoint, ipv6) {
            Some(path) => path,
            None => {
                return None;
            },
        }
    } else if has_prefix(&chars, &chars_of("http://")) {
        let rest = slice_subrange(chars.as_slice(), 7, chars.len());
        assert(rest@ =~= location@.skip(7));
        match path_of_url(rest, "http://", false, endpoint, ipv6) {
            Some(path) => path,
            None => {
                return None;
            },
        }
    } else {
        return None;
    };
    if !job_path_ok(&path) {
        return None;
    }
    Some(text_of(unslash(&path)))
}

/// The canonical path of a new job. Where the answer tells a location, only that counts; else the
/// job's id, where one was found, makes the path.
pub open spec fn new_job_path(
    headers: Seq<char>,
    events: Seq<XmlItem>,
    root: Seq<char>,
    target: Target,
    ipv6: Option<Seq<char>>,
    job_id: Option<Seq<char>>,
) -> Option<Seq<char>> {
    match location_of(headers, events) {
        Some(location) => job_path(location, target, ipv6),
        None => match job_id {
            Some(id) => Some("/"@ + root + "/ScanJobs/"@ + id),
            None => None,
        },
    }
}

/// The canonical path of a new job, from the headers and the events of the body.
pub fn job_path_from_events(
    headers: &str,
    events: &Vec<XmlEvent>,
    root: &str,
    endpoint: &Endpoint,
    ipv6: Option<&str>,
    job_id: Option<&str>,
) -> (r: Option<String>)
    ensures
        opt_text(r) == new_job_path(
            headers@,
            items(events@),
            root@,
            endpoint@,
            opt_str(ipv6),
            opt_str(job_id),
        ),
{
    match location_from_events(headers, events) {
        Some(location) => normalize_job_location(location.as_str(), endpoint, ipv6),
        None => match job_id {
            Some(id) => {
                let mut path = "/".to_owned();
                path.append(root);
                path.append("/ScanJobs/");
                path.append(id);
                Some(path)
            },
            None => None,
        },
    }
}

/// The canonical path of a new job, from the headers and the body of the scanner's answer.
pub fn canonical_job_path(
    headers: &str,
    body: &[u8],
    root: &str,
    endpoint: &Endpoint,
    ipv6: Option<&str>,
    job_id: Option<&str>,
) -> (r: Option<String>)
    ensures
        opt_text(r) == new_job_path(
            headers@,
            xml_events(body@),
            root@,
            endpoint@,
            opt_str(ipv6),
            opt_str(job_id),
        ),
{
    let events = read_xml(body);
    job_path_from_events(headers, &events, root, endpoint, ipv6, job_id)
}

/// The path at which the next document of a job is fetched.
pub open spec fn next_document(path: Seq<char>) -> Seq<char> {
    if crate::text::ends_with(path, "/NextDocument"@) {
        path
    } else {
        path + "/NextDocument"@
    }
}

/// The path at which the next document of a job is fetched.
pub fn next_document_path(path: &str) -> (r: String)
    ensures
        r@ == next_document(path@),
{
    let chars = chars_of(path);
    if crate::text::has_suffix(&chars, &chars_of("/NextDocument")) {
        path.to_owned()
    } else {
        crate::error::joined(path, "/NextDocument")
    }
}

// ---------------------------------------------------------------------------
// Laws
// ---------------------------------------------------------------------------

/// A separator at the end adds an empty part.
proof fn lemma_split_push(s: Seq<char>, sep: char)
    ensures
        split(s.push(sep), sep) == split(s, sep).push(Seq::empty()),
    decreases s.len(),
{
    let t = s.push(sep);
    let k = find(s, sep);
    lemma_find(s, sep);
    assert forall|i: int| 0 <= i < k implies t[i] != sep by {
        assert(t[i] == s[i]);
    }
    lemma_find_is(t, sep, k);
    if k < s.len() {
        lemma_split_push(s.skip(k + 1), sep);
        assert(t.skip(k + 1) =~= s.skip(k + 1).push(sep));
        assert(t.take(k) =~= s.take(k));
        assert(split(t, sep) =~= split(s, sep).push(Seq::empty()));
    } else {
        assert(t.take(k) =~= s);
        let rest = t.skip(k + 1);
        assert(rest =~= Seq::<char>::empty());
        assert(find(rest, sep) == 0);
        assert(split(rest, sep) =~= seq![Seq::<char>::empty()]);
        assert(split(t, sep) =~= seq![s].push(Seq::empty()));
    }
}

/// Dropping trailing slashes keeps the rest: it is a leading part of the path, and as straight.
proof fn lemma_unslashed(path: Seq<char>)
    ensures
        unslashed(path).len() <= path.len(),
        unslashed(path) == path.take(unslashed(path).len() as int),
        is_straight(path) ==> is_straight(unslashed(path)),
    decreases path.len(),
{
    if path.len() > 0 && path.last() == '/' {
        let shorter = path.drop_last();
        lemma_unslashed(shorter);
        assert(unslashed(path) =~= path.take(unslashed(path).len() as int));
        if is_straight(path) {
            lemma_split_push(shorter, '/');
            assert(shorter.push('/') =~= path);
            assert forall|i: int| 0 <= i < split(shorter, '/').len() implies !is_step(
                #[trigger] split(shorter, '/')[i],
            ) by {
                assert(split(path, '/')[i] == split(shorter, '/')[i]);
            }
        }
    } else {
        assert(path.take(path.len() as int) =~= path);
    }
}

/// The path taken from a location is an absolute one at the same endpoint: it begins with a slash,
/// has no segment that steps out, no query, no fragment and no white space.
pub proof fn job_path_stays_at_its_endpoint(
    location: Seq<char>,
    target: Target,
    ipv6: Option<Seq<char>>,
)
    requires
        job_path(location, target, ipv6) is Some,
    ensures
        ({
            let path = job_path(location, target, ipv6)->0;
            &&& path.len() > 0
            &&& path[0] == '/'
            &&& is_straight(path)
            &&& is_clean(path)
            &&& forall|i: int| 0 <= i < path.len() ==> path[i] != '?' && path[i] != '#'
        }),
{
    reveal_strlit("/");
    reveal_strlit("/ScanJobs/");
    reveal_strlit("https://");
    reveal_strlit("http://");
    let whole = path_at(location, target, ipv6)->0;
    let path = unslashed(whole);
    lemma_unslashed(whole);
    lemma_find(whole, '?');
    lemma_find(whole, '#');
    let rest = if starts_with(location, "/"@) {
        location
    } else if starts_with(location, "https://"@) {
        location.skip(8)
    } else {
        location.skip(7)
    };
    let k = if starts_with(location, "/"@) {
        0
    } else {
        find(rest, '/')
    };
    lemma_find(rest, '/');
    assert(whole =~= rest.skip(k));
    if starts_with(location, "/"@) {
        assert(location.take(1)[0] == '/');
    }
    assert(whole[0] == '/');
    assert forall|i: int| 0 <= i < whole.len() implies !crate::escl::endpoint::is_unclean(
        #[trigger] whole[i],
    ) by {
        let base = location.len() - rest.len();
        assert(whole[i] == location[base + k + i]);
    }
    // A letter of the job directory follows the first slash, so it is not dropped.
    let at = choose|i: int|
        0 <= i <= whole.len() - 10 && #[trigger] whole.subrange(i, i + 10) == "/ScanJobs/"@;
    assert(whole.subrange(at, at + 10)[1] == 'S');
    assert(whole[at + 1] == 'S');
    lemma_unslashed_keeps(whole, at + 1);
}

/// What is not a trailing slash is kept.
proof fn lemma_unslashed_keeps(path: Seq<char>, i: int)
    requires
        0 <= i < path.len(),
        path[i] != '/',
    ensures
        unslashed(path).len() > i,
    decreases path.len(),
{
    if path.last() == '/' {
        lemma_unslashed_keeps(path.drop_last(), i);
    }
}

proof fn lemma_first_location(lines: Seq<Seq<char>>, i: int)
    requires
        0 <= i < lines.len(),
        line_location(lines[i]) is Some,
        forall|j: int| 0 <= j < i ==> line_location(#[trigger] lines[j]) is None,
    ensures
        first_location(lines) == line_location(lines[i]),
    decreases lines.len(),
{
    if i > 0 {
        assert(line_location(lines[0]) is None);
        assert(lines.skip(1)[i - 1] == lines[i]);
        assert forall|j: int| 0 <= j < i - 1 implies line_location(#[trigger] lines.skip(1)[j])
            is None by {
            assert(lines.skip(1)[j] == lines[j + 1]);
        }
        lemma_first_location(lines.skip(1), i - 1);
    }
}

/// The first header named `Location`, in letters of any case, tells where the job stands: what follows
/// its colon, without surrounding white space. The body is then not looked at.
#[verifier::spinoff_prover]
#[verifier::rlimit(60)]
pub proof fn location_headers_win(headers: Seq<char>, events: Seq<XmlItem>, i: int, k: int)
    requires
        0 <= i < split(headers, '\n').len(),
        0 <= k < split(headers, '\n')[i].len(),
        split(headers, '\n')[i][k] == ':',
        forall|j: int| 0 <= j < k ==> split(headers, '\n')[i][j] != ':',
        same_letters(split(headers, '\n')[i].take(k), "location"@),
        forall|j: int| 0 <= j < i ==> line_location(#[trigger] split(headers, '\n')[j]) is None,
    ensures
        location_of(headers, events) == Some(trim(split(headers, '\n')[i].skip(k + 1))),
{
    lemma_find_is(split(headers, '\n')[i], ':', k);
    lemma_first_location(split(headers, '\n'), i);
}

/// Without such a header the text of the job URI element tells where the job stands.
pub proof fn job_uris_are_read(
    headers: Seq<char>,
    name: Seq<u8>,
    text: Seq<char>,
    rest: Seq<XmlItem>,
)
    requires
        first_location(split(headers, '\n')) is None,
        local_name_of(name) == "joburi"@,
    ensures
        location_of(headers, seq![XmlItem::Start(name), XmlItem::Text(Some(text))] + rest) == Some(
            text,
        ),
{
    let events = seq![XmlItem::Start(name), XmlItem::Text(Some(text))] + rest;
    reveal_with_fuel(uri_text, 3);
    assert(events.skip(1)[0] == XmlItem::Text(Some(text)));
}

/// A job that is told nowhere stands below the root that was asked, under its id; a location that is told
/// counts alone, whatever the id.
pub proof fn jobs_stand_where_they_are_told(
    headers: Seq<char>,
    events: Seq<XmlItem>,
    root: Seq<char>,
    target: Target,
    ipv6: Option<Seq<char>>,
    id: Seq<char>,
    other: Option<Seq<char>>,
)
    ensures
        location_of(headers, events) is None ==> new_job_path(
            headers,
            events,
            root,
            target,
            ipv6,
            Some(id),
        ) == Some("/"@ + root + "/ScanJobs/"@ + id),
        location_of(headers, events) is None ==> new_job_path(
            headers,
            events,
            root,
            target,
            ipv6,
            None,
        ) is None,
        location_of(headers, events) is Some ==> new_job_path(
            headers,
            events,
            root,
            target,
            ipv6,
            Some(id),
        ) == new_job_path(headers, events, root, target, ipv6, other),
{
}

/// An absolute path below the job directory is taken over but for slashes at its end.
#[verifier::spinoff_prover]
#[verifier::rlimit(60)]
pub proof fn job_paths_are_taken_over(path: Seq<char>, target: Target, ipv6: Option<Seq<char>>)
    requires
        path.len() > 0,
        path[0] == '/',
        path.last() != '/',
        is_clean(path),
        forall|i: int| 0 <= i < path.len() ==> path[i] != '?' && path[i] != '#',
        contains_text(path, "/ScanJobs/"@),
        is_straight(path),
    ensures
        job_path(path, target, ipv6) == Some(path),
        job_path(path.push('/'), target, ipv6) == Some(path),
{
    reveal_strlit("/");
    reveal_strlit("/ScanJobs/");
    let more = path.push('/');
    assert(path.take(1) =~= "/"@);
    assert(more.take(1) =~= "/"@);
    lemma_find_is(path, '?', path.len() as int);
    lemma_find_is(path, '#', path.len() as int);
    lemma_find_is(more, '?', more.len() as int);
    lemma_find_is(more, '#', more.len() as int);
    assert(more.drop_last() =~= path);
    assert(unslashed(path) == path);
    assert(unslashed(more) == unslashed(path));
    lemma_split_push(path, '/');
    reveal_strlit(".");
    reveal_strlit("..");
    assert forall|i: int| 0 <= i < split(more, '/').len() implies !is_step(
        #[trigger] split(more, '/')[i],
    ) by {
        if i < split(path, '/').len() {
            assert(split(more, '/')[i] == split(path, '/')[i]);
        } else {
            assert(split(more, '/')[i].len() == 0);
            assert("."@.len() == 1 && ".."@.len() == 2);
        }
    }
    let at = choose|i: int|
        0 <= i <= path.len() - 10 && #[trigger] path.subrange(i, i + 10) == "/ScanJobs/"@;
    assert(more.subrange(at, at + 10) =~= path.subrange(at, at + 10));
    assert(contains_text(more, "/ScanJobs/"@));
    assert forall|i: int| 0 <= i < more.len() implies !crate::escl::endpoint::is_unclean(
        #[trigger] more[i],
    ) by {
        if i < path.len() {
            assert(more[i] == path[i]);
        }
    }
}

/// The next document of a job is fetched below its path, at `NextDocument`, which is not added twice.
pub proof fn next_documents_lie_below_their_job(path: Seq<char>)
    ensures
        crate::text::ends_with(next_document(path), "/NextDocument"@),
        next_document(path) == path || next_document(path) == path + "/NextDocument"@,
        next_document(next_document(path)) == next_document(path),
{
    let added = path + "/NextDocument"@;
    assert(added.skip(added.len() - "/NextDocument"@.len()) =~= "/NextDocument"@);
}

} // verus!
