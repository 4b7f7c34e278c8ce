//! Plain data and helpers for the mail-review front end: the review status
//! of a message, the fields read out of one, and the small text helper the
//! front end uses to group messages by bracketed subject tags.

use vstd::prelude::*;
use vstd::string::StrSliceExecFns;

use crate::text::{find_char, find_char_from, lemma_find_char_from_bounds, parse_i64,
    spec_parse_i64};

verus! {

/// Where a reviewed message should go.
#[derive(Debug, Clone, Copy, PartialEq, Eq, Structural, PartialOrd, Ord)]
pub enum Status {
    Inbox,
    FollowUp,
    ReadThrough,
    Archive,
}

impl Status {
    /// The label text of the status.
    pub fn to_string(&self) -> (r: String)
        ensures
            (match self {
                Status::Inbox => r@ == "Inbox"@,
                Status::FollowUp => r@ == "FollowUp"@,
                Status::ReadThrough => r@ == "ReadThrough"@,
                Status::Archive => r@ == "Archive"@,
            }),
    {
        match self {
            Status::Inbox => "Inbox".to_owned(),
            Status::FollowUp => "FollowUp".to_owned(),
            Status::ReadThrough => "ReadThrough".to_owned(),
            Status::Archive => "Archive".to_owned(),
        }
    }
}

/// The fields of one message that the review front end works with.
#[derive(Debug, Clone, PartialEq, Eq)]
pub struct Email {
    pub status: Status,
    pub subject: String,
    pub from_name: String,
    pub from_domain: String,
    pub body: String,
    pub date: i64,
    pub id: String,
}

/// Applies a pending status change, if there is one, to the message; every
/// other field is untouched.
pub fn update_status(current: &mut Email, status: &Option<Status>)
    ensures
        (match *status {
            Some(st) => {
                &&& final(current).status == st
                &&& final(current).subject == old(current).subject
                &&& final(current).from_name == old(current).from_name
                &&& final(current).from_domain == old(current).from_domain
                &&& final(current).body == old(current).body
                &&& final(current).date == old(current).date
                &&& final(current).id == old(current).id
            },
            None => *final(current) == *old(current),
        }),
{
    match status {
        Some(st) => {
            current.status = *st;
        },
        None => {},
    }
}

/// The text between the first `[` and the first `]` after it; empty when
/// either bracket is missing.
pub open spec fn spec_get_bracketed(s: Seq<char>) -> Seq<char> {
    match find_char_from(s, '[', 0) {
        None => Seq::empty(),
        Some(a) => match find_char_from(s, ']', a + 1) {
            None => Seq::empty(),
            Some(b) => s.subrange(a + 1, b),
        },
    }
}

/// The part of the text between its first `[` and the first `]` after that.
pub fn get_bracketed(s: &str) -> (r: &str)
    ensures
        r@ == spec_get_bracketed(s@),
{
    match find_char(s, '[', 0) {
        None => {
            proof {
                reveal_strlit("");
                assert(""@ =~= Seq::<char>::empty());
            }
            ""
        },
        Some(a) => {
            let n = s.unicode_len();
            proof {
                lemma_find_char_from_bounds(s@, '[', 0);
                assert(a < n);
            }
            match find_char(s, ']', a + 1) {
                None => {
                    proof {
                        reveal_strlit("");
                        assert(""@ =~= Seq::<char>::empty());
                    }
                    ""
                },
                Some(b) => {
                    proof {
                        lemma_find_char_from_bounds(s@, ']', a + 1 as int);
                    }
                    s.substring_char(a + 1, b)
                },
            }
        },
    }
}

/// One message header, both parts optional, as the mail service hands them
/// over.
#[derive(Debug, Clone, PartialEq, Eq)]
pub struct Header {
    pub name: Option<String>,
    pub value: Option<String>,
}

/// The mathematical value of a header.
pub struct HeaderView {
    pub name: Option<Seq<char>>,
    pub value: Option<Seq<char>>,
}

impl View for Header {
    type V = HeaderView;

    open spec fn view(&self) -> HeaderView {
        HeaderView {
            name: match self.name {
                Some(ref n) => Some(n@),
                None => None,
            },
            value: match self.value {
                Some(ref v) => Some(v@),
                None => None,
            },
        }
    }
}

/// The values of a header sequence.
pub open spec fn headers_view(v: Seq<Header>) -> Seq<HeaderView> {
    v.map_values(|h: Header| h@)
}

/// The character with an ASCII capital letter folded to its small form.
pub open spec fn lower_char(c: char) -> char {
    if 'A' <= c && c <= 'Z' {
        ((c as u32) + 32) as char
    } else {
        c
    }
}

/// Equality of two texts up to ASCII letter case.
pub open spec fn eq_ignore_ascii(a: Seq<char>, b: Seq<char>) -> bool {
    a.len() == b.len() && (forall|i: int|
        0 <= i < a.len() ==> lower_char(#[trigger] a[i]) == lower_char(#[trigger] b[i]))
}

/// Folds one ASCII capital letter to its small form.
fn lower_char_exec(c: char) -> (r: char)
    ensures
        r == lower_char(c),
{
    if c >= 'A' && c <= 'Z' {
        (((c as u8) + 32) as char)
    } else {
        c
    }
}

/// Compares two texts up to ASCII letter case.
fn eq_ignore_ascii_exec(a: &str, b: &str) -> (r: bool)
    ensures
        r == eq_ignore_ascii(a@, b@),
{
    let na = a.unicode_len();
    let nb = b.unicode_len();
    if na != nb {
        return false;
    }
    let mut i: usize = 0;
    while i < na
        invariant
            0 <= i <= na,
            na == a@.len(),
            na == b@.len(),
            forall|k: int| 0 <= k < i ==> lower_char(#[trigger] a@[k]) == lower_char(#[trigger] b@[k]),
        decreases na - i,
    {
        let ca = lower_char_exec(a.get_char(i));
        let cb = lower_char_exec(b.get_char(i));
        if ca != cb {
            return false;
        }
        i = i + 1;
    }
    true
}

/// The value of the first header whose present name equals `name` up to
/// ASCII case; the lookup stops at that header even when its value is
/// absent.
pub open spec fn spec_get_header(name: Seq<char>, hs: Seq<HeaderView>) -> Option<Seq<char>>
    decreases hs.len(),
{
    if hs.len() == 0 {
        None
    } else if hs[0].name is Some && eq_ignore_ascii(name, hs[0].name.unwrap()) {
        hs[0].value
    } else {
        spec_get_header(name, hs.drop_first())
    }
}

/// Looks a header up by name, ignoring ASCII letter case; headers without a
/// name are passed over.
pub fn get_header(name: &str, headers: &Vec<Header>) -> (r: Option<String>)
    ensures
        (match r {
            Some(v) => spec_get_header(name@, headers_view(headers@)) == Some(v@),
            None => spec_get_header(name@, headers_view(headers@)) is None,
        }),
{
    let ghost all = headers_view(headers@);
    let n = headers.len();
    let mut i: usize = 0;
    proof {
        assert(all.skip(0) =~= all);
    }
    while i < n
        invariant
            0 <= i <= n,
            n == headers@.len(),
            all == headers_view(headers@),
            spec_get_header(name@, all) == spec_get_header(name@, all.skip(i as int)),
        decreases n - i,
    {
        proof {
            assert(all.skip(i as int)[0] == all[i as int]);
            assert(all.skip(i as int).drop_first() =~= all.skip(i + 1 as int));
        }
        let h = &headers[i];
        match &h.name {
            Some(hn) => {
                if eq_ignore_ascii_exec(name, hn.as_str()) {
                    return h.value.clone();
                }
            },
            None => {},
        }
        i = i + 1;
    }
    proof {
        assert(all.skip(n as int) =~= Seq::<HeaderView>::empty());
    }
    None
}

/// The fields of one message as the mail service hands them over, each
/// possibly absent.
#[derive(Debug, Clone, PartialEq, Eq)]
pub struct MessageData {
    pub headers: Option<Vec<Header>>,
    pub snippet: Option<String>,
    pub internal_date: Option<String>,
    pub id: Option<String>,
}

/// The sender text from the first `<` on, when one is present.
pub open spec fn from_cut(from_raw: Seq<char>) -> Seq<char> {
    match find_char_from(from_raw, '<', 0) {
        Some(p) => from_raw.subrange(p, from_raw.len() as int),
        None => from_raw,
    }
}

/// The sender text before its first `@`.
pub open spec fn from_name_of(f: Seq<char>) -> Seq<char> {
    match find_char_from(f, '@', 0) {
        Some(q) => f.subrange(0, q),
        None => f,
    }
}

/// The sender text between its first `@` and the next one, or to the end;
/// empty without an `@`.
pub open spec fn from_domain_of(f: Seq<char>) -> Seq<char> {
    match find_char_from(f, '@', 0) {
        Some(q) => match find_char_from(f, '@', q + 1) {
            Some(q2) => f.subrange(q + 1, q2),
            None => f.subrange(q + 1, f.len() as int),
        },
        None => Seq::empty(),
    }
}

/// A header value, or empty when absent.
pub open spec fn opt_or_empty(o: Option<Seq<char>>) -> Seq<char> {
    match o {
        Some(v) => v,
        None => Seq::empty(),
    }
}

/// The field values of a reviewable message.
pub struct EmailFields {
    pub subject: Seq<char>,
    pub from_name: Seq<char>,
    pub from_domain: Seq<char>,
    pub body: Seq<char>,
    pub date: int,
    pub id: Seq<char>,
}

/// What a message means as a reviewable email: absent headers, snippet, date
/// or id — or a date that is no 64-bit decimal number — refuse it; otherwise
/// the subject and sender parts are read from the headers.
pub open spec fn spec_email_fields(m: MessageData) -> Option<EmailFields> {
    match m.headers {
        None => None,
        Some(hs_vec) => {
            let hs = headers_view(hs_vec@);
            match m.snippet {
                None => None,
                Some(sn) => match m.id {
                    None => None,
                    Some(idv) => match m.internal_date {
                        None => None,
                        Some(ds) => match spec_parse_i64(ds@) {
                            None => None,
                            Some(d) => {
                                let f = from_cut(opt_or_empty(spec_get_header("from"@, hs)));
                                Some(
                                    EmailFields {
                                        subject: opt_or_empty(spec_get_header("subject"@, hs)),
                                        from_name: from_name_of(f),
                                        from_domain: from_domain_of(f),
                                        body: sn@,
                                        date: d,
                                        id: idv@,
                                    },
                                )
                            },
                        },
                    },
                },
            }
        },
    }
}

impl Email {
    /// Reads one message into a reviewable email, starting in the inbox;
    /// refused when the headers, the snippet, the date or the id is absent,
    /// or the date is no 64-bit decimal number.
    pub fn new(message: &MessageData) -> (r: Option<Email>)
        ensures
            (match spec_email_fields(*message) {
                None => r is None,
                Some(f) => (match r {
                    Some(e) => {
                        &&& e.status == Status::Inbox
                        &&& e.subject@ == f.subject
                        &&& e.from_name@ == f.from_name
                        &&& e.from_domain@ == f.from_domain
                        &&& e.body@ == f.body
                        &&& e.date == f.date
                        &&& e.id@ == f.id
                    },
                    None => false,
                }),
            }),
    {
        let headers = match &message.headers {
            Some(h) => h,
            None => {
                return None;
            },
        };
        let subject = match get_header("subject", headers) {
            Some(v) => v,
            None => String::new(),
        };
        let from_raw = match get_header("from", headers) {
            Some(v) => v,
            None => String::new(),
        };
        let nr = from_raw.as_str().unicode_len();
        let f: &str = match find_char(from_raw.as_str(), '<', 0) {
            Some(p) => {
                proof {
                    lemma_find_char_from_bounds(from_raw@, '<', 0);
                }
                from_raw.as_str().substring_char(p, nr)
            },
            None => from_raw.as_str(),
        };
        let nf = f.unicode_len();
        let from_name: &str = match find_char(f, '@', 0) {
            Some(q) => {
                proof {
                    lemma_find_char_from_bounds(f@, '@', 0);
                }
                f.substring_char(0, q)
            },
            None => f,
        };
        let from_domain: &str = match find_char(f, '@', 0) {
            Some(q) => {
                proof {
                    lemma_find_char_from_bounds(f@, '@', 0);
                }
                match find_char(f, '@', q + 1) {
                    Some(q2) => {
                        proof {
                            lemma_find_char_from_bounds(f@, '@', q + 1 as int);
                        }
                        f.substring_char(q + 1, q2)
                    },
                    None => f.substring_char(q + 1, nf),
                }
            },
            None => {
                proof {
                    reveal_strlit("");
                    assert(""@ =~= Seq::<char>::empty());
                }
                ""
            },
        };
        let date_text = match &message.internal_date {
            Some(d) => d,
            None => {
                return None;
            },
        };
        let date = match parse_i64(date_text.as_str()) {
            Some(d) => d,
            None => {
                return None;
            },
        };
        let body = match &message.snippet {
            Some(b) => b.clone(),
            None => {
                return None;
            },
        };
        let id = match &message.id {
            Some(x) => x.clone(),
            None => {
                return None;
            },
        };
        Some(
            Email {
                status: Status::Inbox,
                subject,
                from_name: from_name.to_owned(),
                from_domain: from_domain.to_owned(),
                body,
                date,
                id,
            },
        )
    }
}

/// The views of an id list.
pub open spec fn ids_view(v: Seq<String>) -> Seq<Seq<char>> {
    v.map_values(|s: String| s@)
}

/// The ids of the messages that carry the given status, in list order.
pub open spec fn spec_ids_with_status(emails: Seq<Email>, status: Status) -> Seq<Seq<char>>
    decreases emails.len(),
{
    if emails.len() == 0 {
        Seq::empty()
    } else {
        let rest = spec_ids_with_status(emails.drop_first(), status);
        if emails[0].status == status {
            seq![emails[0].id@] + rest
        } else {
            rest
        }
    }
}

/// Collects, in order, the ids of the messages that carry the given status.
pub fn ids_with_status(emails: &Vec<Email>, status: Status) -> (r: Vec<String>)
    ensures
        ids_view(r@) == spec_ids_with_status(emails@, status),
{
    let n = emails.len();
    let mut r: Vec<String> = Vec::new();
    let mut i: usize = 0;
    proof {
        assert(emails@.skip(0) =~= emails@);
        assert(ids_view(r@) =~= Seq::<Seq<char>>::empty());
    }
    while i < n
        invariant
            0 <= i <= n,
            n == emails@.len(),
            spec_ids_with_status(emails@, status) == ids_view(r@) + spec_ids_with_status(
                emails@.skip(i as int),
                status,
            ),
        decreases n - i,
    {
        proof {
            assert(emails@.skip(i as int)[0] == emails@[i as int]);
            assert(emails@.skip(i as int).drop_first() =~= emails@.skip(i + 1 as int));
        }
        if emails[i].status == status {
            let ghost old_r = r@;
            r.push(emails[i].id.clone());
            proof {
                assert(ids_view(r@) =~= ids_view(old_r).push(emails@[i as int].id@));
                assert(ids_view(old_r).push(emails@[i as int].id@) + spec_ids_with_status(
                    emails@.skip(i + 1 as int),
                    status,
                ) =~= ids_view(old_r) + (seq![emails@[i as int].id@] + spec_ids_with_status(
                    emails@.skip(i + 1 as int),
                    status,
                )));
            }
        }
        i = i + 1;
    }
    proof {
        assert(emails@.skip(n as int) =~= Seq::<Email>::empty());
        assert(ids_view(r@) + Seq::<Seq<char>>::empty() =~= ids_view(r@));
    }
    r
}

/// The list cut into runs of `size`, in order; the last run holds what is
/// left and may be shorter.
pub open spec fn spec_chunks(v: Seq<Seq<char>>, size: int) -> Seq<Seq<Seq<char>>>
    decreases v.len(),
    when size >= 1
{
    if v.len() == 0 {
        Seq::empty()
    } else if v.len() <= size {
        seq![v]
    } else {
        seq![v.subrange(0, size)] + spec_chunks(v.skip(size), size)
    }
}

/// The views of a chunk list.
pub open spec fn chunks_view(r: Seq<Vec<String>>) -> Seq<Seq<Seq<char>>> {
    r.map_values(|c: Vec<String>| ids_view(c@))
}

/// Cuts an id list into runs of at most `size`, keeping order; every run but
/// the last is full.
pub fn chunks_of(v: &Vec<String>, size: usize) -> (r: Vec<Vec<String>>)
    requires
        size >= 1,
    ensures
        chunks_view(r@) == spec_chunks(ids_view(v@), size as int),
{
    let n = v.len();
    let mut r: Vec<Vec<String>> = Vec::new();
    let mut start: usize = 0;
    proof {
        assert(ids_view(v@).skip(0) =~= ids_view(v@));
        assert(chunks_view(r@) =~= Seq::<Seq<Seq<char>>>::empty());
    }
    while start < n
        invariant
            0 <= start <= n,
            n == v@.len(),
            size >= 1,
            spec_chunks(ids_view(v@), size as int) == chunks_view(r@) + spec_chunks(
                ids_view(v@).skip(start as int),
                size as int,
            ),
        decreases n - start,
    {
        let end = if n - start <= size {
            n
        } else {
            start + size
        };
        let mut chunk: Vec<String> = Vec::new();
        let mut j: usize = start;
        proof {
            assert(ids_view(chunk@) =~= ids_view(v@).subrange(start as int, start as int));
        }
        while j < end
            invariant
                start <= j <= end <= n,
                n == v@.len(),
                ids_view(chunk@) == ids_view(v@).subrange(start as int, j as int),
            decreases end - j,
        {
            let ghost old_chunk = chunk@;
            chunk.push(v[j].clone());
            proof {
                assert(ids_view(chunk@) =~= ids_view(old_chunk).push(v@[j as int]@));
                assert(ids_view(v@).subrange(start as int, j + 1 as int) =~= ids_view(
                    v@,
                ).subrange(start as int, j as int).push(ids_view(v@)[j as int]));
            }
            j = j + 1;
        }
        let ghost old_r = r@;
        r.push(chunk);
        proof {
            let all = ids_view(v@);
            let tail = all.skip(start as int);
            assert(chunks_view(r@) =~= chunks_view(old_r).push(
                all.subrange(start as int, end as int),
            ));
            if n - start <= size {
                assert(tail =~= all.subrange(start as int, n as int));
                assert(spec_chunks(tail, size as int) == seq![tail]);
                assert(all.skip(end as int) =~= Seq::<Seq<char>>::empty());
                assert(spec_chunks(all.skip(end as int), size as int) == Seq::<
                    Seq<Seq<char>>,
                >::empty());
                assert(chunks_view(old_r).push(all.subrange(start as int, end as int))
                    + Seq::<Seq<Seq<char>>>::empty() =~= chunks_view(old_r) + seq![tail]);
            } else {
                assert(tail.subrange(0, size as int) =~= all.subrange(start as int, end as int));
                assert(tail.skip(size as int) =~= all.skip(end as int));
                assert(spec_chunks(tail, size as int) == seq![tail.subrange(0, size as int)]
                    + spec_chunks(all.skip(end as int), size as int));
                assert(chunks_view(old_r).push(all.subrange(start as int, end as int))
                    + spec_chunks(all.skip(end as int), size as int) =~= chunks_view(old_r) + (
                seq![tail.subrange(0, size as int)] + spec_chunks(
                    all.skip(end as int),
                    size as int,
                )));
            }
        }
        start = end;
    }
    proof {
        assert(ids_view(v@).skip(n as int) =~= Seq::<Seq<char>>::empty());
        assert(chunks_view(r@) + Seq::<Seq<Seq<char>>>::empty() =~= chunks_view(r@));
    }
    r
}

/// The ids that are present in one page listing, in order.
pub open spec fn spec_present_ids(page: Seq<Option<String>>) -> Seq<Seq<char>>
    decreases page.len(),
{
    if page.len() == 0 {
        Seq::empty()
    } else {
        let rest = spec_present_ids(page.drop_first());
        match page[0] {
            Some(id) => seq![id@] + rest,
            None => rest,
        }
    }
}

/// Appends the ids present in one page listing to the collected ids, in
/// order; absent ids are passed over.
pub fn append_present_ids(ids: &mut Vec<String>, page: &Vec<Option<String>>)
    ensures
        ids_view(final(ids)@) == ids_view(old(ids)@) + spec_present_ids(page@),
{
    let n = page.len();
    let mut i: usize = 0;
    proof {
        assert(page@.skip(0) =~= page@);
    }
    while i < n
        invariant
            0 <= i <= n,
            n == page@.len(),
            ids_view(old(ids)@) + spec_present_ids(page@) =~= ids_view(ids@) + spec_present_ids(
                page@.skip(i as int),
            ),
        decreases n - i,
    {
        proof {
            assert(page@.skip(i as int)[0] == page@[i as int]);
            assert(page@.skip(i as int).drop_first() =~= page@.skip(i + 1 as int));
        }
        match &page[i] {
            Some(id) => {
                let ghost old_acc = ids@;
                ids.push(id.clone());
                proof {
                    assert(ids_view(ids@) =~= ids_view(old_acc).push(page@[i as int].unwrap()@));
                    assert(ids_view(old_acc).push(page@[i as int].unwrap()@) + spec_present_ids(
                        page@.skip(i + 1 as int),
                    ) =~= ids_view(old_acc) + (seq![page@[i as int].unwrap()@]
                        + spec_present_ids(page@.skip(i + 1 as int))));
                }
            },
            None => {},
        }
        i = i + 1;
    }
    proof {
        assert(page@.skip(n as int) =~= Seq::<Option<String>>::empty());
        assert(ids_view(ids@) + Seq::<Seq<char>>::empty() =~= ids_view(ids@));
    }
}

} // verus!
