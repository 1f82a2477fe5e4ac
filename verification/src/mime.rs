//! A parsed MIME message as plain values, and how the client turns it into
//! a stored message: subject and addresses as text, the body chosen among
//! the parts, the preview, the attachments, and the time it arrived.
use vstd::prelude::*;
use mail_parser::{HeaderName, MessageParser, MimeHeaders};
use crate::clock::{now_rfc3339, rfc3339_from_unix_timestamp, rfc3339_of_unix, utc_rfc3339_shape};
use crate::decimal::{decimal, format_u32, format_usize};
use crate::errors::ProtocolError;
use crate::html::{
    build_preview, extract_cid_references, html_to_text, normalize_content_id, normalize_text,
    spec_build_preview, spec_cid_references, spec_html_to_text, spec_normalize_content_id,
    spec_normalize_text,
};
use crate::model::{
    AttachmentRef, InlineResource, MailAccount, MailFolder, MailMessage, MessageFlags,
};
use crate::protocol::{
    join, join_strings, normalize_message_id_header, spec_normalize_message_id_header,
};
use crate::text::{
    append_chars, chars_eq_ignore_case, chars_of, concat2, concat3, copy_string, eq_ignore_case,
    literal, lower_chars, lower_seq, opt_view, owned, string_from_chars, string_set, trim,
    trim_chars, views, contains_string,
};

verus! {

// ---------------------------------------------------------------------------
// The parsed message
// ---------------------------------------------------------------------------

/// One address of an address header.
#[derive(Debug, Clone, PartialEq, Eq)]
pub struct MimeAddress {
    pub name: Option<String>,
    pub address: Option<String>,
}

/// An address header: a list of addresses, or groups of them.
#[derive(Debug, Clone, PartialEq, Eq)]
pub enum MimeAddressField {
    List(Vec<MimeAddress>),
    Group(Vec<Vec<MimeAddress>>),
}

/// The value of a header.
#[derive(Debug, Clone, PartialEq, Eq)]
pub enum MimeHeader {
    Text(String),
    TextList(Vec<String>),
    Address(MimeAddressField),
    /// A date or a trace header, already written out.
    Shown(String),
    ContentType(MimeContentType),
    Empty,
}

/// A content type: main type and optional subtype.
#[derive(Debug, Clone, PartialEq, Eq)]
pub struct MimeContentType {
    pub ctype: String,
    pub subtype: Option<String>,
}

/// One part of a message.
#[derive(Debug, Clone, PartialEq, Eq)]
pub struct MimePart {
    /// The decoded text, for a text part.
    pub text: Option<String>,
    /// Whether its disposition is `attachment`.
    pub attachment_disposition: bool,
    pub attachment_name: Option<String>,
    pub content_type: Option<MimeContentType>,
    /// Its Content-ID header, as written.
    pub content_id: Option<String>,
    /// Its decoded content, for a part that is not text (binary or inline
    /// binary).
    pub binary: Option<Vec<u8>>,
}

/// One attachment of a message.
#[derive(Debug, Clone, PartialEq, Eq)]
pub struct MimeAttachment {
    pub name: Option<String>,
    pub content_type: Option<MimeContentType>,
    pub len: usize,
}

/// What the client reads from a parsed message.
#[derive(Debug, Clone, PartialEq, Eq)]
pub struct MimeSummary {
    pub subject: Option<MimeHeader>,
    pub from: Option<MimeAddressField>,
    pub from_header: Option<MimeHeader>,
    pub to: Option<MimeAddressField>,
    pub cc: Option<MimeAddressField>,
    pub html_body: Option<String>,
    /// The indexes of the parts that make up the text body.
    pub text_body_ids: Vec<u32>,
    pub parts: Vec<MimePart>,
    pub message_id: Option<String>,
    /// The Date header as seconds since the epoch.
    pub date: Option<i64>,
    pub attachments: Vec<MimeAttachment>,
}

// ---------------------------------------------------------------------------
// Addresses as text
// ---------------------------------------------------------------------------

/// How one address is written: `name <address>`, or whichever of the two
/// it has.
pub open spec fn address_entry(a: MimeAddress) -> Seq<char> {
    match (a.name, a.address) {
        (Some(n), Some(x)) => n@ + " <"@ + x@ + ">"@,
        (None, Some(x)) => x@,
        (Some(n), None) => n@,
        (None, None) => Seq::empty(),
    }
}

/// The written addresses that are not empty, in order.
pub open spec fn nonempty_entries(addrs: Seq<MimeAddress>) -> Seq<Seq<char>>
    decreases addrs.len(),
{
    if addrs.len() == 0 {
        Seq::empty()
    } else {
        let before = nonempty_entries(addrs.drop_last());
        if address_entry(addrs.last()).len() > 0 {
            before.push(address_entry(addrs.last()))
        } else {
            before
        }
    }
}

/// The addresses of all groups, one group after another.
pub open spec fn concat_groups(groups: Seq<Vec<MimeAddress>>) -> Seq<MimeAddress>
    decreases groups.len(),
{
    if groups.len() == 0 {
        Seq::empty()
    } else {
        concat_groups(groups.drop_last()) + groups.last()@
    }
}

/// The addresses of an address header.
pub open spec fn field_addresses(f: MimeAddressField) -> Seq<MimeAddress> {
    match f {
        MimeAddressField::List(v) => v@,
        MimeAddressField::Group(g) => concat_groups(g@),
    }
}

/// An address header as text: its addresses written and joined by `, `.
pub open spec fn spec_address_text(f: MimeAddressField) -> Seq<char> {
    join(nonempty_entries(field_addresses(f)), ", "@)
}

proof fn lemma_nonempty_entries_concat(a: Seq<MimeAddress>, b: Seq<MimeAddress>)
    ensures
        nonempty_entries(a + b) == nonempty_entries(a) + nonempty_entries(b),
    decreases b.len(),
{
    if b.len() == 0 {
        assert(a + b =~= a);
        assert(nonempty_entries(a) + nonempty_entries(b) =~= nonempty_entries(a));
    } else {
        lemma_nonempty_entries_concat(a, b.drop_last());
        assert((a + b).drop_last() =~= a + b.drop_last());
        assert((a + b).last() == b.last());
        if address_entry(b.last()).len() > 0 {
            assert(nonempty_entries(a) + nonempty_entries(b) =~= (nonempty_entries(a)
                + nonempty_entries(b.drop_last())).push(address_entry(b.last())));
        } else {
            assert(nonempty_entries(a) + nonempty_entries(b) =~= nonempty_entries(a)
                + nonempty_entries(b.drop_last()));
        }
    }
}

fn write_address(a: &MimeAddress) -> (r: String)
    ensures
        r@ == address_entry(*a),
{
    match (&a.name, &a.address) {
        (Some(n), Some(x)) => {
            let mut s = concat3(n.as_str(), " <", x.as_str());
            s.append(">");
            s
        },
        (None, Some(x)) => copy_string(x),
        (Some(n), None) => copy_string(n),
        (None, None) => String::new(),
    }
}

fn push_entries(out: &mut Vec<String>, addrs: &Vec<MimeAddress>)
    ensures
        views(final(out)@) == views(old(out)@) + nonempty_entries(addrs@),
{
    let ghost start = views(out@);
    for i in 0..addrs.len()
        invariant
            views(out@) == start + nonempty_entries(addrs@.take(i as int)),
    {
        assert(addrs@.take(i + 1).drop_last() =~= addrs@.take(i as int));
        assert(addrs@.take(i + 1).last() == addrs@[i as int]);
        let e = write_address(&addrs[i]);
        let ghost before = out@;
        if chars_of(e.as_str()).len() > 0 {
            out.push(e);
            assert(views(out@) =~= views(before).push(address_entry(addrs@[i as int])));
            assert(views(out@) =~= start + nonempty_entries(addrs@.take(i + 1)));
        }
    }
    assert(addrs@.take(addrs@.len() as int) =~= addrs@);
}

/// An address header as text.
pub fn address_text(f: &MimeAddressField) -> (r: String)
    ensures
        r@ == spec_address_text(*f),
{
    let mut entries: Vec<String> = Vec::new();
    match f {
        MimeAddressField::List(v) => {
            push_entries(&mut entries, v);
            assert(views(entries@) =~= nonempty_entries(v@));
        },
        MimeAddressField::Group(groups) => {
            for g in 0..groups.len()
                invariant
                    views(entries@) == nonempty_entries(concat_groups(groups@.take(g as int))),
            {
                assert(groups@.take(g + 1).drop_last() =~= groups@.take(g as int));
                assert(groups@.take(g + 1).last() == groups@[g as int]);
                proof {
                    lemma_nonempty_entries_concat(
                        concat_groups(groups@.take(g as int)),
                        groups@[g as int]@,
                    );
                }
                push_entries(&mut entries, &groups[g]);
            }
            assert(groups@.take(groups@.len() as int) =~= groups@);
        },
    }
    join_strings(&entries, ", ")
}

/// `s` cut at every comma, as `str::split(',')` does.
pub open spec fn split_commas(s: Seq<char>) -> Seq<Seq<char>>
    decreases s.len(),
{
    if s.len() == 0 {
        seq![Seq::<char>::empty()]
    } else {
        let p = split_commas(s.drop_last());
        if s.last() == ',' {
            p.push(Seq::<char>::empty())
        } else {
            p.update(p.len() - 1, p.last().push(s.last()))
        }
    }
}

proof fn lemma_split_commas_nonempty(s: Seq<char>)
    ensures
        split_commas(s).len() > 0,
    decreases s.len(),
{
    if s.len() > 0 {
        lemma_split_commas_nonempty(s.drop_last());
    }
}

/// The pieces trimmed, the empty ones left out.
pub open spec fn trimmed_pieces(pieces: Seq<Seq<char>>) -> Seq<Seq<char>>
    decreases pieces.len(),
{
    if pieces.len() == 0 {
        Seq::empty()
    } else {
        let before = trimmed_pieces(pieces.drop_last());
        if trim(pieces.last()).len() > 0 {
            before.push(trim(pieces.last()))
        } else {
            before
        }
    }
}

/// The addresses of a header as a list: its text cut at commas, each piece
/// trimmed, empty pieces left out.
pub open spec fn spec_address_list(f: Option<MimeAddressField>) -> Seq<Seq<char>> {
    match f {
        Some(x) => trimmed_pieces(split_commas(spec_address_text(x))),
        None => Seq::empty(),
    }
}

/// The addresses of a header as a list.
pub fn address_list(f: &Option<MimeAddressField>) -> (r: Vec<String>)
    ensures
        views(r@) == spec_address_list(*f),
{
    let text = match f {
        Some(x) => address_text(x),
        None => {
            return Vec::new();
        },
    };
    let chars = chars_of(text.as_str());
    let mut pieces: Vec<Vec<char>> = Vec::new();
    let mut cur: Vec<char> = Vec::new();
    for i in 0..chars.len()
        invariant
            pieces@.map_values(|p: Vec<char>| p@).push(cur@) == split_commas(chars@.take(i as int)),
    {
        assert(chars@.take(i + 1).drop_last() =~= chars@.take(i as int));
        assert(chars@.take(i + 1).last() == chars@[i as int]);
        proof {
            lemma_split_commas_nonempty(chars@.take(i as int));
        }
        let ghost before_pieces = pieces@.map_values(|p: Vec<char>| p@);
        let ghost before_cur = cur@;
        if chars[i] == ',' {
            let done = cur;
            pieces.push(done);
            cur = Vec::new();
            assert(pieces@.map_values(|p: Vec<char>| p@) =~= before_pieces.push(before_cur));
        } else {
            cur.push(chars[i]);
            assert(before_pieces.push(cur@) =~= before_pieces.push(before_cur).update(
                before_pieces.len() as int,
                before_cur.push(chars@[i as int]),
            ));
        }
    }
    assert(chars@.take(chars@.len() as int) =~= chars@);
    pieces.push(cur);
    let ghost all = pieces@.map_values(|p: Vec<char>| p@);
    assert(all == split_commas(text@));
    let mut out: Vec<String> = Vec::new();
    for k in 0..pieces.len()
        invariant
            all == pieces@.map_values(|p: Vec<char>| p@),
            views(out@) == trimmed_pieces(all.take(k as int)),
    {
        assert(all.take(k + 1).drop_last() =~= all.take(k as int));
        assert(all.take(k + 1).last() == pieces@[k as int]@);
        let t = trim_chars(pieces[k].as_slice());
        if t.len() > 0 {
            out.push(string_from_chars(t.as_slice()));
            assert(views(out@) =~= trimmed_pieces(all.take(k as int)).push(t@));
        }
    }
    assert(all.take(all.len() as int) =~= all);
    out
}

// ---------------------------------------------------------------------------
// Headers as text
// ---------------------------------------------------------------------------

/// A content type as text: `type/subtype`, with `octet-stream` when the
/// subtype is missing.
pub open spec fn content_type_text(c: MimeContentType) -> Seq<char> {
    c.ctype@ + "/"@ + match c.subtype {
        Some(s) => s@,
        None => "octet-stream"@,
    }
}

fn write_content_type(c: &MimeContentType) -> (r: String)
    ensures
        r@ == content_type_text(*c),
{
    let mut s = concat2(c.ctype.as_str(), "/");
    match &c.subtype {
        Some(x) => s.append(x.as_str()),
        None => s.append("octet-stream"),
    }
    s
}

/// A header's value as text: text as it is, a list of texts joined by
/// `, `, addresses as text, a content type as `type/subtype`; nothing for an
/// empty or missing header.
pub open spec fn spec_header_text(h: Option<MimeHeader>) -> Option<Seq<char>> {
    match h {
        None => None,
        Some(MimeHeader::Text(t)) => Some(t@),
        Some(MimeHeader::TextList(v)) => Some(join(views(v@), ", "@)),
        Some(MimeHeader::Address(a)) => Some(spec_address_text(a)),
        Some(MimeHeader::Shown(t)) => Some(t@),
        Some(MimeHeader::ContentType(c)) => Some(content_type_text(c)),
        Some(MimeHeader::Empty) => None,
    }
}

/// A header's value as text.
pub fn header_text(h: &Option<MimeHeader>) -> (r: Option<String>)
    ensures
        opt_view(r) == spec_header_text(*h),
{
    match h {
        None => None,
        Some(MimeHeader::Text(t)) => Some(copy_string(t)),
        Some(MimeHeader::TextList(v)) => Some(join_strings(v, ", ")),
        Some(MimeHeader::Address(a)) => Some(address_text(a)),
        Some(MimeHeader::Shown(t)) => Some(copy_string(t)),
        Some(MimeHeader::ContentType(c)) => Some(write_content_type(c)),
        Some(MimeHeader::Empty) => None,
    }
}

// ---------------------------------------------------------------------------
// The body
// ---------------------------------------------------------------------------

/// A part that may serve as the text body when the message names none: not
/// an attachment, without a file name, and of type `text/plain` (in any
/// case).
pub open spec fn spec_is_fallback_text_part(p: MimePart) -> bool {
    &&& !p.attachment_disposition
    &&& p.attachment_name is None
    &&& p.content_type matches Some(c) && eq_ignore_case(c.ctype@, "text"@) && (c.subtype matches Some(
        s,
    ) && eq_ignore_case(s@, "plain"@))
}

/// Whether a part may serve as the text body when the message names none.
pub fn is_fallback_text_part(p: &MimePart) -> (r: bool)
    ensures
        r == spec_is_fallback_text_part(*p),
{
    if p.attachment_disposition || p.attachment_name.is_some() {
        return false;
    }
    match &p.content_type {
        Some(c) => {
            let text = literal("text");
            let plain = literal("plain");
            chars_eq_ignore_case(chars_of(c.ctype.as_str()).as_slice(), text.as_slice())
                && match &c.subtype {
                Some(s) => chars_eq_ignore_case(chars_of(s.as_str()).as_slice(), plain.as_slice()),
                None => false,
            }
        },
        None => false,
    }
}

/// The text of the first of the named text-body parts that exists and is
/// text.
pub open spec fn first_named_text(ids: Seq<u32>, parts: Seq<MimePart>) -> Option<Seq<char>>
    decreases ids.len(),
{
    if ids.len() == 0 {
        None
    } else if ids[0] < parts.len() && parts[ids[0] as int].text is Some {
        Some(parts[ids[0] as int].text->0@)
    } else {
        first_named_text(ids.drop_first(), parts)
    }
}

/// The text of the first fallback part that is text.
pub open spec fn first_fallback_text(parts: Seq<MimePart>) -> Option<Seq<char>>
    decreases parts.len(),
{
    if parts.len() == 0 {
        None
    } else if spec_is_fallback_text_part(parts[0]) && parts[0].text is Some {
        Some(parts[0].text->0@)
    } else {
        first_fallback_text(parts.drop_first())
    }
}

/// The text body: the first named text-body part that is text, else the
/// first plain-text part that is no attachment.
pub open spec fn spec_first_text_body(ids: Seq<u32>, parts: Seq<MimePart>) -> Option<Seq<char>> {
    match first_named_text(ids, parts) {
        Some(t) => Some(t),
        None => first_fallback_text(parts),
    }
}

/// A part that may stand in for the text body when none is named: text of
/// its own, no attachment, and the type `text/plain` in any case.
pub open spec fn plain_inline_text_part(p: MimePart) -> bool {
    &&& p.text is Some
    &&& !p.attachment_disposition
    &&& p.attachment_name is None
    &&& p.content_type is Some
    &&& eq_ignore_case(p.content_type->0.ctype@, "text"@)
    &&& p.content_type->0.subtype is Some
    &&& eq_ignore_case(p.content_type->0.subtype->0@, "plain"@)
}

/// The fallback body is the text of the first plain-text part that is no
/// attachment: no attachment, named or by disposition, and no part of
/// another type is ever taken as the body; with no such part there is none.
pub proof fn lemma_fallback_text_is_first_plain_part(parts: Seq<MimePart>)
    ensures
        first_fallback_text(parts) is Some <==> exists|k: int|
            0 <= k < parts.len() && plain_inline_text_part(#[trigger] parts[k]),
        first_fallback_text(parts) is Some ==> exists|k: int|
            0 <= k < parts.len() && plain_inline_text_part(#[trigger] parts[k])
                && first_fallback_text(parts) == Some(parts[k].text->0@) && forall|j: int|
                0 <= j < k ==> !plain_inline_text_part(#[trigger] parts[j]),
    decreases parts.len(),
{
    if parts.len() > 0 {
        let tail = parts.drop_first();
        lemma_fallback_text_is_first_plain_part(tail);
        assert(spec_is_fallback_text_part(parts[0]) && parts[0].text is Some <==> plain_inline_text_part(
            parts[0],
        ));
        if plain_inline_text_part(parts[0]) {
            assert(0 <= 0 < parts.len() && plain_inline_text_part(parts[0]));
        } else {
            if exists|k: int| 0 <= k < tail.len() && plain_inline_text_part(#[trigger] tail[k]) {
                let k = choose|k: int| 0 <= k < tail.len() && plain_inline_text_part(#[trigger] tail[k]);
                assert(parts[k + 1] == tail[k]);
            }
            if exists|k: int| 0 <= k < parts.len() && plain_inline_text_part(#[trigger] parts[k]) {
                let k = choose|k: int| 0 <= k < parts.len() && plain_inline_text_part(#[trigger] parts[k]);
                assert(k > 0);
                assert(tail[k - 1] == parts[k]);
            }
            if first_fallback_text(tail) is Some {
                let k = choose|k: int|
                    0 <= k < tail.len() && plain_inline_text_part(#[trigger] tail[k]) && first_fallback_text(
                        tail,
                    ) == Some(tail[k].text->0@) && forall|j: int|
                        0 <= j < k ==> !plain_inline_text_part(#[trigger] tail[j]);
                assert(parts[k + 1] == tail[k]);
                assert forall|j: int| 0 <= j < k + 1 implies !plain_inline_text_part(#[trigger] parts[j]) by {
                    if j > 0 {
                        assert(parts[j] == tail[j - 1]);
                    }
                }
            }
        }
    }
}

/// A named text-body part that has text wins over any fallback part.
pub proof fn lemma_named_text_body_first(ids: Seq<u32>, parts: Seq<MimePart>)
    ensures
        ids.len() > 0 && ids[0] < parts.len() && parts[ids[0] as int].text is Some ==> spec_first_text_body(
            ids,
            parts,
        ) == Some(parts[ids[0] as int].text->0@),
        ids.len() == 0 ==> spec_first_text_body(ids, parts) == first_fallback_text(parts),
{
}

/// The text body of a parsed message.
pub fn first_text_body(ids: &Vec<u32>, parts: &Vec<MimePart>) -> (r: Option<String>)
    ensures
        opt_view(r) == spec_first_text_body(ids@, parts@),
{
    assert(ids@.skip(0) =~= ids@);
    assert(parts@.skip(0) =~= parts@);
    for i in 0..ids.len()
        invariant
            parts@.skip(0) == parts@,
            first_named_text(ids@, parts@) == first_named_text(ids@.skip(i as int), parts@),
    {
        assert(ids@.skip(i as int).drop_first() =~= ids@.skip(i + 1));
        assert(ids@.skip(i as int)[0] == ids@[i as int]);
        let id = ids[i] as usize;
        if id < parts.len() {
            if let Some(t) = &parts[id].text {
                return Some(copy_string(t));
            }
        }
    }
    assert(ids@.skip(ids@.len() as int) =~= Seq::<u32>::empty());
    for k in 0..parts.len()
        invariant
            first_named_text(ids@, parts@) is None,
            first_fallback_text(parts@) == first_fallback_text(parts@.skip(k as int)),
    {
        assert(parts@.skip(k as int).drop_first() =~= parts@.skip(k + 1));
        assert(parts@.skip(k as int)[0] == parts@[k as int]);
        if is_fallback_text_part(&parts[k]) {
            if let Some(t) = &parts[k].text {
                return Some(copy_string(t));
            }
        }
    }
    assert(parts@.skip(parts@.len() as int) =~= Seq::<MimePart>::empty());
    None
}

/// The body of a message: its text body, or else its HTML body as text,
/// with white space normalised.
pub open spec fn spec_message_body(m: MimeSummary) -> Seq<char> {
    spec_normalize_text(
        match spec_first_text_body(m.text_body_ids@, m.parts@) {
            Some(t) => t,
            None => match m.html_body {
                Some(h) => spec_html_to_text(h@),
                None => Seq::empty(),
            },
        },
    )
}

// ---------------------------------------------------------------------------
// Attachments, time, and the stored message
// ---------------------------------------------------------------------------

/// The MIME type recorded for an attachment.
pub open spec fn attachment_mime_type(c: Option<MimeContentType>) -> Seq<char> {
    match c {
        Some(x) => content_type_text(x),
        None => "application/octet-stream"@,
    }
}

/// The record of the `index`-th attachment of message `message_id`.
pub open spec fn attachment_ok(
    r: AttachmentRef,
    a: MimeAttachment,
    message_id: Seq<char>,
    index: nat,
) -> bool {
    &&& r.id@ == message_id + ":att-"@ + decimal(index)
    &&& r.message_id@ == message_id
    &&& r.filename@ == match a.name {
        Some(n) => n@,
        None => "attachment-"@ + decimal(index),
    }
    &&& r.mime_type@ == attachment_mime_type(a.content_type)
    &&& r.size_bytes == a.len as i64
    &&& r.local_path is None
}

/// The time a message arrived: its Date header, or else `now`.
pub open spec fn spec_received_at(date: Option<i64>, now: Seq<char>) -> Seq<char> {
    match date {
        Some(d) => match rfc3339_of_unix(d as int) {
            Some(t) => t,
            None => now,
        },
        None => now,
    }
}

/// The error for raw bytes that do not parse as a message.
pub fn parse_failure(uid: u32) -> (r: ProtocolError)
    ensures
        r matches ProtocolError::Parse(m) && m@ == "failed to parse UID "@ + decimal(uid as nat),
{
    ProtocolError::Parse(concat2("failed to parse UID ", format_u32(uid).as_str()))
}

/// The content identifiers that the HTML body refers to by `cid:`, in lower
/// case.
pub open spec fn html_references(mime: MimeSummary) -> Set<Seq<char>> {
    match mime.html_body {
        Some(h) => spec_cid_references(h@),
        None => Set::empty(),
    }
}

/// The Content-ID under which a part is kept as an inline resource: its
/// Content-ID without angle brackets, where the HTML body refers to it (in
/// any case) and the part has binary content.
pub open spec fn inline_content_id(p: MimePart, refs: Set<Seq<char>>) -> Option<Seq<char>> {
    match p.content_id {
        Some(c) => match spec_normalize_content_id(c@) {
            Some(id) => if refs.contains(lower_seq(id)) && p.binary is Some {
                Some(id)
            } else {
                None
            },
            None => None,
        },
        None => None,
    }
}

/// The positions of the parts that are kept as inline resources, in order.
pub open spec fn inline_positions(parts: Seq<MimePart>, refs: Set<Seq<char>>) -> Seq<int>
    decreases parts.len(),
{
    if parts.len() == 0 {
        Seq::empty()
    } else {
        let before = inline_positions(parts.drop_last(), refs);
        if inline_content_id(parts.last(), refs) is Some {
            before.push(parts.len() - 1)
        } else {
            before
        }
    }
}

/// The record of the inline resource that part `index` of message
/// `message_id` is.
pub open spec fn inline_ok(
    r: InlineResource,
    p: MimePart,
    refs: Set<Seq<char>>,
    message_id: Seq<char>,
    index: int,
) -> bool {
    &&& r.id@ == message_id + ":inline-"@ + decimal(index as nat)
    &&& r.message_id@ == message_id
    &&& inline_content_id(p, refs) == Some(r.content_id@)
    &&& opt_view(r.filename) == opt_view(p.attachment_name)
    &&& r.mime_type@ == attachment_mime_type(p.content_type)
    &&& p.binary matches Some(b) && r.bytes@ == b@
}

/// The inline resources `v` of a message `message_id` parsed as `mime`: its
/// parts that the HTML body refers to by `cid:`, in order.
pub open spec fn inline_resources_ok(v: Seq<InlineResource>, mime: MimeSummary, message_id: Seq<char>) -> bool {
    let refs = html_references(mime);
    let pos = inline_positions(mime.parts@, refs);
    &&& v.len() == pos.len()
    &&& forall|i: int|
        0 <= i < v.len() ==> inline_ok(#[trigger] v[i], mime.parts@[pos[i]], refs, message_id, pos[i])
}

/// The Content-ID under which a part is kept as an inline resource, if it is one.
fn inline_content_id_of(p: &MimePart, refs: &Vec<String>) -> (r: Option<String>)
    ensures
        opt_view(r) == inline_content_id(*p, string_set(refs@)),
{
    match &p.content_id {
        None => None,
        Some(c) => match normalize_content_id(c.as_str()) {
            None => None,
            Some(id) => {
                let low = string_from_chars(lower_chars(chars_of(id.as_str()).as_slice()).as_slice());
                if contains_string(refs, &low) && p.binary.is_some() {
                    Some(id)
                } else {
                    None
                }
            },
        },
    }
}

/// The inline resources of a message `message_id` parsed as `mime`.
fn inline_resources(mime: &MimeSummary, message_id: &String) -> (r: Vec<InlineResource>)
    ensures
        inline_resources_ok(r@, *mime, message_id@),
{
    let refs: Vec<String> = match &mime.html_body {
        Some(h) => extract_cid_references(h.as_str()),
        None => Vec::new(),
    };
    let ghost rs = html_references(*mime);
    assert(string_set(refs@) =~= rs);
    let ghost parts = mime.parts@;
    let mut out: Vec<InlineResource> = Vec::new();
    for k in 0..mime.parts.len()
        invariant
            parts == mime.parts@,
            string_set(refs@) == rs,
            rs == html_references(*mime),
            out@.len() == inline_positions(parts.take(k as int), rs).len(),
            forall|i: int|
                0 <= i < out@.len() ==> inline_ok(
                    #[trigger] out@[i],
                    parts[inline_positions(parts.take(k as int), rs)[i]],
                    rs,
                    message_id@,
                    inline_positions(parts.take(k as int), rs)[i],
                ),
    {
        assert(parts.take(k + 1).drop_last() =~= parts.take(k as int));
        assert(parts.take(k + 1).last() == parts[k as int]);
        let p = &mime.parts[k];
        match inline_content_id_of(p, &refs) {
            None => {},
            Some(found) => {
                let index = format_usize(k);
                let mut rid = concat2(message_id.as_str(), ":inline-");
                rid.append(index.as_str());
                let bytes = match &p.binary {
                    Some(b) => vstd::slice::slice_to_vec(b.as_slice()),
                    None => Vec::new(),
                };
                let mime_type = match &p.content_type {
                    Some(c) => write_content_type(c),
                    None => "application/octet-stream".to_owned(),
                };
                let filename = match &p.attachment_name {
                    Some(n) => Some(copy_string(n)),
                    None => None,
                };
                out.push(
                    InlineResource {
                        id: rid,
                        message_id: copy_string(message_id),
                        content_id: found,
                        filename,
                        mime_type,
                        bytes,
                    },
                );
            },
        }
    }
    assert(parts.take(parts.len() as int) =~= parts);
    out
}

/// The stored message `r` for a parsed one: fetched with `uid` into `folder`
/// of `account`, its raw form `raw` and reported by the
/// server as `size` bytes, at `now`.
pub open spec fn mime_message(
    r: MailMessage,
    account: MailAccount,
    folder: MailFolder,
    uid: u32,
    mime: MimeSummary,
    raw: Seq<u8>,
    size: Option<u32>,
    now: Seq<char>,
) -> bool {
    let id = account.id@ + ":"@ + folder.id@ + ":"@ + decimal(uid as nat);
    let body = spec_message_body(mime);
    &&& r.id@ == id
    &&& r.account_id@ == account.id@
    &&& r.folder_id@ == folder.id@
    &&& opt_view(r.uid) == Some(decimal(uid as nat))
    &&& opt_view(r.message_id_header) == match mime.message_id {
        Some(m) => spec_normalize_message_id_header(m@),
        None => None,
    }
    &&& r.subject@ == match spec_header_text(mime.subject) {
        Some(s) => s,
        None => "(no subject)"@,
    }
    &&& r.sender@ == match mime.from {
        Some(f) => spec_address_text(f),
        None => match spec_header_text(mime.from_header) {
            Some(s) => s,
            None => Seq::empty(),
        },
    }
    &&& views(r.recipients@) == spec_address_list(mime.to)
    &&& views(r.cc@) == spec_address_list(mime.cc)
    &&& r.received_at@ == spec_received_at(mime.date, now)
    &&& r.body_preview@ == spec_build_preview(body)
    &&& opt_view(r.body) == Some(body)
    &&& opt_view(r.html_body) == opt_view(mime.html_body)
    &&& r.raw_mime matches Some(b) && b@ == raw
    &&& inline_resources_ok(r.inline_resources@, mime, id)
    &&& r.attachments@.len() == mime.attachments@.len()
    &&& forall|i: int|
        0 <= i < r.attachments@.len() ==> attachment_ok(
            #[trigger] r.attachments@[i],
            mime.attachments@[i],
            id,
            i as nat,
        )
    &&& r.flags == MessageFlags {
        is_read: false,
        is_starred: false,
        is_answered: false,
        is_forwarded: false,
    }
    &&& r.size_bytes == Some(
        match size {
            Some(s) => s as i64,
            None => raw.len() as i64,
        },
    )
    &&& r.deleted_at is None
}

/// The stored message for a parsed one: fetched with `uid` into `folder` of
/// `account`, its raw form `raw` and reported by the server
/// as `size` bytes, at `now`.
pub fn message_from_mime(
    account: &MailAccount,
    folder: &MailFolder,
    uid: u32,
    mime: &MimeSummary,
    raw: &[u8],
    size: Option<u32>,
    now: String,
) -> (r: MailMessage)
    ensures
        mime_message(r, *account, *folder, uid, *mime, raw@, size, now@),
{
    let subject = match header_text(&mime.subject) {
        Some(s) => s,
        None => "(no subject)".to_owned(),
    };
    let sender = match &mime.from {
        Some(f) => address_text(f),
        None => match header_text(&mime.from_header) {
            Some(s) => s,
            None => String::new(),
        },
    };
    let recipients = address_list(&mime.to);
    let cc = address_list(&mime.cc);
    let chosen = match first_text_body(&mime.text_body_ids, &mime.parts) {
        Some(t) => t,
        None => match &mime.html_body {
            Some(h) => html_to_text(h.as_str()),
            None => String::new(),
        },
    };
    let body = normalize_text(chosen.as_str());
    let body_preview = build_preview(body.as_str());
    let message_id_header = match &mime.message_id {
        Some(m) => normalize_message_id_header(m.as_str()),
        None => None,
    };
    let uid_text = format_u32(uid);
    let mut id = concat3(account.id.as_str(), ":", folder.id.as_str());
    id.append(":");
    id.append(uid_text.as_str());
    let mut attachments: Vec<AttachmentRef> = Vec::new();
    for i in 0..mime.attachments.len()
        invariant
            i <= mime.attachments@.len(),
            attachments@.len() == i,
            forall|j: int|
                0 <= j < i ==> attachment_ok(
                    #[trigger] attachments@[j],
                    mime.attachments@[j],
                    id@,
                    j as nat,
                ),
    {
        let a = &mime.attachments[i];
        let index = format_usize(i);
        let mut att_id = concat2(id.as_str(), ":att-");
        att_id.append(index.as_str());
        let filename = match &a.name {
            Some(n) => copy_string(n),
            None => concat2("attachment-", index.as_str()),
        };
        let mime_type = match &a.content_type {
            Some(c) => write_content_type(c),
            None => "application/octet-stream".to_owned(),
        };
        let size_bytes: i64 = a.len as i64;
        attachments.push(
            AttachmentRef {
                id: att_id,
                message_id: copy_string(&id),
                filename,
                mime_type,
                size_bytes,
                local_path: None,
            },
        );
    }
    let inline = inline_resources(mime, &id);
    let html_body = match &mime.html_body {
        Some(h) => Some(copy_string(h)),
        None => None,
    };
    let received_at = match mime.date {
        Some(d) => match rfc3339_from_unix_timestamp(d) {
            Some(t) => t,
            None => now,
        },
        None => now,
    };
    MailMessage {
        id,
        account_id: copy_string(&account.id),
        folder_id: copy_string(&folder.id),
        uid: Some(uid_text),
        message_id_header,
        subject,
        sender,
        recipients,
        cc,
        received_at,
        body_preview,
        body: Some(body),
        html_body,
        raw_mime: Some(vstd::slice::slice_to_vec(raw)),
        inline_resources: inline,
        attachments,
        flags: MessageFlags { is_read: false, is_starred: false, is_answered: false, is_forwarded: false },
        size_bytes: Some(
            match size {
                Some(s) => s as i64,
                None => raw.len() as i64,
            },
        ),
        deleted_at: None,
    }
}

// ---------------------------------------------------------------------------
// Reading raw bytes with mail-parser
// ---------------------------------------------------------------------------

#[verifier::external_type_specification]
#[verifier::external_body]
pub struct ExHeaderValue<'x>(mail_parser::HeaderValue<'x>);

#[verifier::external_type_specification]
#[verifier::external_body]
pub struct ExAddress<'x>(mail_parser::Address<'x>);

#[verifier::external_type_specification]
#[verifier::external_body]
pub struct ExContentType<'x>(mail_parser::ContentType<'x>);

#[verifier::external_type_specification]
#[verifier::external_body]
pub struct ExMessagePart<'x>(mail_parser::MessagePart<'x>);

/// Names what `mail_parser` reads from raw bytes: nothing where they hold
/// no message, else the headers, parts and attachments that the client
/// uses, as plain values.
pub uninterp spec fn mime_summary_of(raw: Seq<u8>) -> Option<MimeSummary>;

/// A step of `read_mime`: a `mail_parser` content type as its main type and
/// subtype.
#[verifier::external_body]
fn content_type_of(c: &mail_parser::ContentType<'_>) -> MimeContentType {
    MimeContentType { ctype: c.ctype().to_string(), subtype: c.subtype().map(String::from) }
}

/// A step of `read_mime`: a `mail_parser` address header as its list of
/// addresses, or its groups.
#[verifier::external_body]
fn address_of(a: &mail_parser::Address<'_>) -> MimeAddressField {
    let one = |x: &mail_parser::Addr<'_>| MimeAddress {
        name: x.name.as_deref().map(String::from),
        address: x.address.as_deref().map(String::from),
    };
    match a {
        mail_parser::Address::List(l) => MimeAddressField::List(l.iter().map(one).collect()),
        mail_parser::Address::Group(g) => MimeAddressField::Group(
            g.iter().map(|x| x.addresses.iter().map(one).collect()).collect(),
        ),
    }
}

/// A step of `read_mime`: a `mail_parser` header value, variant by variant; a
/// date or a trace header is written out with its `Debug` form.
#[verifier::external_body]
fn header_of(v: &mail_parser::HeaderValue<'_>) -> MimeHeader {
    match v {
        mail_parser::HeaderValue::Text(t) => MimeHeader::Text(t.to_string()),
        mail_parser::HeaderValue::TextList(l) => MimeHeader::TextList(l.iter().map(|t| t.to_string()).collect()),
        mail_parser::HeaderValue::Address(a) => MimeHeader::Address(address_of(a)),
        mail_parser::HeaderValue::DateTime(d) => MimeHeader::Shown(format!("{d:?}")),
        mail_parser::HeaderValue::ContentType(c) => MimeHeader::ContentType(content_type_of(c)),
        mail_parser::HeaderValue::Received(r) => MimeHeader::Shown(format!("{r:?}")),
        mail_parser::HeaderValue::Empty => MimeHeader::Empty,
    }
}

/// A step of `read_mime`: a part of a `mail_parser` message as its text, the
/// test `is_attachment` on its disposition, its name, its type, its
/// Content-ID and its binary content.
#[verifier::external_body]
fn part_of(p: &mail_parser::MessagePart<'_>) -> MimePart {
    MimePart {
        text: match &p.body {
            mail_parser::PartType::Text(t) => Some(t.to_string()),
            _ => None,
        },
        attachment_disposition: p.content_disposition().is_some_and(|d| d.is_attachment()),
        attachment_name: p.attachment_name().map(String::from),
        content_type: p.content_type().map(content_type_of),
        content_id: p.content_id().map(String::from),
        binary: match &p.body {
            mail_parser::PartType::Binary(b) | mail_parser::PartType::InlineBinary(b) => Some(b.to_vec()),
            _ => None,
        },
    }
}

/// A step of `read_mime`: an attachment of a `mail_parser` message as its
/// name, type and length.
#[verifier::external_body]
fn attachment_of(p: &mail_parser::MessagePart<'_>) -> MimeAttachment {
    MimeAttachment {
        name: p.attachment_name().map(String::from),
        content_type: p.content_type().map(content_type_of),
        len: p.len(),
    }
}

/// Reads raw bytes with `mail_parser::MessageParser::parse`, which its
/// documentation says never panics, and takes from the message what the
/// client uses (Subject and From headers, the From, To and Cc addresses, the
/// first HTML body, the text-body part numbers, every part, the Message-ID,
/// the Date as a Unix time, and the attachments). The contract only names the
/// result.
#[verifier::external_body]
fn read_mime(raw: &[u8]) -> (r: Option<MimeSummary>)
    ensures
        r == mime_summary_of(raw@),
{
    let m = MessageParser::default().parse(raw)?;
    Some(MimeSummary {
        subject: m.header(HeaderName::Subject).map(header_of),
        from: m.from().map(address_of),
        from_header: m.header(HeaderName::From).map(header_of),
        to: m.to().map(address_of),
        cc: m.cc().map(address_of),
        html_body: m.body_html(0).map(String::from),
        text_body_ids: m.text_body.clone(),
        parts: m.parts.iter().map(part_of).collect(),
        message_id: m.message_id().map(String::from),
        date: m.date().map(|d| d.to_timestamp()),
        attachments: m.attachments().map(attachment_of).collect(),
    })
}

/// Reads the raw bytes fetched under `uid` from `folder` of `account` as a
/// stored message; the server reported it as `size` bytes. Where the Date
/// header gives no time the message is stamped with the current time.
pub fn parse_message(
    account: &MailAccount,
    folder: &MailFolder,
    uid: u32,
    raw: &[u8],
    size: Option<u32>,
) -> (r: Result<MailMessage, ProtocolError>)
    ensures
        match mime_summary_of(raw@) {
            None => r matches Err(ProtocolError::Parse(m)) && m@ == "failed to parse UID "@ + decimal(
                uid as nat,
            ),
            Some(s) => r matches Ok(msg) && exists|now: Seq<char>|
                utc_rfc3339_shape(now) && #[trigger] mime_message(
                    msg,
                    *account,
                    *folder,
                    uid,
                    s,
                    raw@,
                    size,
                    now,
                ),
        },
{
    match read_mime(raw) {
        None => Err(parse_failure(uid)),
        Some(summary) => {
            let now = now_rfc3339();
            let ghost at = now@;
            let msg = message_from_mime(account, folder, uid, &summary, raw, size, now);
            assert(mime_message(msg, *account, *folder, uid, summary, raw@, size, at));
            Ok(msg)
        },
    }
}

} // verus!
