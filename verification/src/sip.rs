//! SIP messages: methods, header fields, requests and responses (RFC 3261).

use vstd::prelude::*;

use crate::text::{eq_ignore_ascii_case, folded, same_ignoring_case};

verus! {

/// A request method.
#[derive(Clone, Debug, PartialEq, Eq)]
pub enum SipMethod {
    Invite,
    Ack,
    Bye,
    Cancel,
    Options,
    Register,
    Notify,
    Subscribe,
    Publish,
    Prack,
    Update,
    Info,
    Message,
    Refer,
    Other(String),
}

/// The header fields of a message, in order. The view holds each field's name
/// and value.
#[derive(Clone, Debug)]
pub struct SipHeaders {
    fields: Vec<(String, String)>,
}

/// A header field: its name and its value.
pub type Field = (Seq<char>, Seq<char>);

/// The value of the first field called `name`. Names are compared without
/// regard to case (RFC 3261 §7.3.1).
pub open spec fn header(fields: Seq<Field>, name: Seq<char>) -> Option<Seq<char>>
    decreases fields.len(),
{
    if fields.len() == 0 {
        None
    } else if same_ignoring_case(fields.first().0, name) {
        Some(fields.first().1)
    } else {
        header(fields.drop_first(), name)
    }
}

/// `fields` without those called `name`.
pub open spec fn without(fields: Seq<Field>, name: Seq<char>) -> Seq<Field> {
    fields.filter(|f: Field| !same_ignoring_case(f.0, name))
}

/// `fields` with `value` as the one value of `name`: the first field of that
/// name is overwritten and further ones are dropped; where there is none, one is
/// added at the end.
pub open spec fn with_header(fields: Seq<Field>, name: Seq<char>, value: Seq<char>) -> Seq<Field>
    decreases fields.len(),
{
    if fields.len() == 0 {
        seq![(name, value)]
    } else if same_ignoring_case(fields.first().0, name) {
        seq![(name, value)] + without(fields.drop_first(), name)
    } else {
        seq![fields.first()] + with_header(fields.drop_first(), name, value)
    }
}

/// The fields called `name`, in order, under that name.
pub open spec fn copied(fields: Seq<Field>, name: Seq<char>) -> Seq<Field>
    decreases fields.len(),
{
    if fields.len() == 0 {
        Seq::empty()
    } else if same_ignoring_case(fields.last().0, name) {
        copied(fields.drop_last(), name).push((name, fields.last().1))
    } else {
        copied(fields.drop_last(), name)
    }
}

proof fn lemma_header_of_without(fields: Seq<Field>, name: Seq<char>, other: Seq<char>)
    ensures
        header(without(fields, name), other) == (if same_ignoring_case(name, other) {
            None
        } else {
            header(fields, other)
        }),
    decreases fields.len(),
{
    reveal(Seq::filter);
    let keep = |f: Field| !same_ignoring_case(f.0, name);
    if fields.len() > 0 {
        let rest = fields.drop_first();
        lemma_header_of_without(rest, name, other);
        lemma_filter_first(fields, keep);
        if keep(fields.first()) {
            let w = seq![fields.first()] + rest.filter(keep);
            assert(w.drop_first() =~= rest.filter(keep));
            assert(w.first() == fields.first());
        }
    } else {
        assert(fields.filter(keep) =~= Seq::<Field>::empty());
    }
}

proof fn lemma_filter_first<A>(s: Seq<A>, keep: spec_fn(A) -> bool)
    requires
        s.len() > 0,
    ensures
        s.filter(keep) == (if keep(s.first()) {
            seq![s.first()] + s.drop_first().filter(keep)
        } else {
            s.drop_first().filter(keep)
        }),
    decreases s.len(),
{
    reveal(Seq::filter);
    if s.len() == 1 {
        assert(s.drop_last() =~= Seq::<A>::empty());
        assert(s.drop_first() =~= Seq::<A>::empty());
        assert(Seq::<A>::empty().filter(keep) =~= Seq::<A>::empty());
        if keep(s.first()) {
            assert(s.filter(keep) =~= seq![s.first()] + Seq::<A>::empty());
        }
    } else {
        let front = s.drop_last();
        lemma_filter_first(front, keep);
        assert(front.drop_first() =~= s.drop_first().drop_last());
        assert(front.first() == s.first());
        assert(s.drop_first().last() == s.last());
        if keep(s.last()) {
            if keep(s.first()) {
                assert((seq![s.first()] + front.drop_first().filter(keep)).push(s.last())
                    =~= seq![s.first()] + front.drop_first().filter(keep).push(s.last()));
            }
        }
    }
}

/// What is set is what is read, under any spelling of the name, and no other
/// field is touched.
pub proof fn law_header_set_is_header_read(
    fields: Seq<Field>,
    name: Seq<char>,
    value: Seq<char>,
    other: Seq<char>,
)
    ensures
        header(with_header(fields, name, value), other) == (if same_ignoring_case(name, other) {
            Some(value)
        } else {
            header(fields, other)
        }),
    decreases fields.len(),
{
    let set = with_header(fields, name, value);
    if fields.len() == 0 {
        assert(set.drop_first() =~= Seq::<Field>::empty());
        assert(set.first() == (name, value));
        assert(header(set.drop_first(), other) is None);
    } else if same_ignoring_case(fields.first().0, name) {
        let rest = without(fields.drop_first(), name);
        lemma_header_of_without(fields.drop_first(), name, other);
        assert(set.drop_first() =~= rest);
        assert(set.first() == (name, value));
    } else {
        let rest = with_header(fields.drop_first(), name, value);
        law_header_set_is_header_read(fields.drop_first(), name, value, other);
        assert(set.drop_first() =~= rest);
        assert(set.first() == fields.first());
    }
}

spec fn fields_view(fields: Seq<(String, String)>) -> Seq<Field> {
    fields.map_values(|f: (String, String)| (f.0@, f.1@))
}

impl View for SipHeaders {
    type V = Seq<Field>;

    closed spec fn view(&self) -> Seq<Field> {
        fields_view(self.fields@)
    }
}

impl SipHeaders {
    /// No fields.
    pub fn new() -> (r: Self)
        ensures
            r@ == Seq::<Field>::empty(),
    {
        let r = SipHeaders { fields: Vec::new() };
        assert(r@ =~= Seq::<Field>::empty());
        r
    }

    /// The value of the first field called `name`.
    pub fn get(&self, name: &str) -> (r: Option<&str>)
        ensures
            r is Some <==> header(self@, name@) is Some,
            r is Some ==> r->0@ == header(self@, name@)->0,
    {
        let mut i: usize = 0;
        assert(self@.skip(0) =~= self@);
        while i < self.fields.len()
            invariant
                i <= self.fields.len(),
                self@.len() == self.fields.len(),
                header(self@.skip(i as int), name@) == header(self@, name@),
            decreases self.fields.len() - i,
        {
            let ghost rest = self@.skip(i as int);
            assert(rest.first() == (self.fields@[i as int].0@, self.fields@[i as int].1@));
            if eq_ignore_ascii_case(self.fields[i].0.as_str(), name) {
                return Some(self.fields[i].1.as_str());
            }
            assert(rest.drop_first() =~= self@.skip(i + 1));
            i = i + 1;
        }
        assert(self@.skip(i as int) =~= Seq::<Field>::empty());
        None
    }

    /// Adds a field at the end.
    pub fn add_field(&mut self, name: &str, value: &str)
        ensures
            final(self)@ == old(self)@.push((name@, value@)),
    {
        let field: (String, String) = (name.to_owned(), value.to_owned());
        self.fields.push(field);
        assert(self@ =~= old(self)@.push((name@, value@)));
    }

    /// Makes `value` the one value of `name`.
    pub fn set(&mut self, name: &str, value: &str)
        ensures
            final(self)@ == with_header(old(self)@, name@, value@),
    {
        let mut fields: Vec<(String, String)> = Vec::new();
        let mut written: bool = false;
        let n: usize = self.fields.len();
        let ghost all = self@;
        let mut i: usize = 0;
        proof {
            assert(all.skip(0) =~= all);
            assert(fields_view(fields@) =~= Seq::<Field>::empty());
            assert(Seq::<Field>::empty() + with_header(all, name@, value@) =~= with_header(
                all,
                name@,
                value@,
            ));
        }
        while i < n
            invariant
                i <= n,
                n == self.fields.len(),
                all == self@,
                all.len() == n,
                with_header(all, name@, value@) == fields_view(fields@) + (if written {
                    without(all.skip(i as int), name@)
                } else {
                    with_header(all.skip(i as int), name@, value@)
                }),
            decreases n - i,
        {
            let ghost rest = all.skip(i as int);
            let ghost done = fields_view(fields@);
            proof {
                assert(rest.first() == (self.fields@[i as int].0@, self.fields@[i as int].1@));
                assert(rest.drop_first() =~= all.skip(i + 1));
                lemma_filter_first(rest, |f: Field| !same_ignoring_case(f.0, name@));
            }
            if !eq_ignore_ascii_case(self.fields[i].0.as_str(), name) {
                fields.push((self.fields[i].0.clone(), self.fields[i].1.clone()));
                proof {
                    assert(fields_view(fields@) =~= done.push(rest.first()));
                    assert(done.push(rest.first()) + without(all.skip(i + 1), name@) =~= done + (
                    seq![rest.first()] + without(all.skip(i + 1), name@)));
                    assert(done.push(rest.first()) + with_header(all.skip(i + 1), name@, value@)
                        =~= done + (seq![rest.first()] + with_header(
                        all.skip(i + 1),
                        name@,
                        value@,
                    )));
                }
            } else if !written {
                fields.push((name.to_owned(), value.to_owned()));
                written = true;
                proof {
                    assert(fields_view(fields@) =~= done.push((name@, value@)));
                    assert(done.push((name@, value@)) + without(all.skip(i + 1), name@) =~= done
                        + (seq![(name@, value@)] + without(all.skip(i + 1), name@)));
                }
            }
            i = i + 1;
        }
        let ghost done = fields_view(fields@);
        proof {
            assert(all.skip(n as int) =~= Seq::<Field>::empty());
            reveal(Seq::filter);
        }
        if !written {
            fields.push((name.to_owned(), value.to_owned()));
            assert(fields_view(fields@) =~= done + seq![(name@, value@)]);
        } else {
            assert(done + Seq::<Field>::empty() =~= done);
        }
        self.fields = fields;
    }

    /// Adds, under the name `name`, every field that `from` has of that name.
    pub fn copy_all(&mut self, from: &SipHeaders, name: &str)
        ensures
            final(self)@ == old(self)@ + copied(from@, name@),
    {
        let mut i: usize = 0;
        assert(from@.take(0) =~= Seq::<Field>::empty());
        assert(self@ + Seq::<Field>::empty() =~= self@);
        while i < from.fields.len()
            invariant
                i <= from.fields.len(),
                from@.len() == from.fields.len(),
                self@ == old(self)@ + copied(from@.take(i as int), name@),
            decreases from.fields.len() - i,
        {
            let ghost taken = from@.take(i + 1);
            assert(taken.drop_last() =~= from@.take(i as int));
            assert(taken.last() == (from.fields@[i as int].0@, from.fields@[i as int].1@));
            if eq_ignore_ascii_case(from.fields[i].0.as_str(), name) {
                self.add_field(name, from.fields[i].1.as_str());
                assert(self@ =~= old(self)@ + copied(taken, name@));
            }
            i = i + 1;
        }
        assert(from@.take(i as int) =~= from@);
    }

    /// Adds, under the name `name`, the first field that `from` has of that name.
    pub fn copy_first(&mut self, from: &SipHeaders, name: &str)
        ensures
            final(self)@ == old(self)@ + field_of(from@, name@),
    {
        match from.get(name) {
            Some(value) => {
                self.add_field(name, value);
                assert(self@ =~= old(self)@ + field_of(from@, name@));
            },
            None => {
                assert(self@ =~= old(self)@ + field_of(from@, name@));
            },
        }
    }
}

/// The first field called `name`, under that name; nothing where there is none.
pub open spec fn field_of(fields: Seq<Field>, name: Seq<char>) -> Seq<Field> {
    match header(fields, name) {
        Some(value) => seq![(name, value)],
        None => Seq::empty(),
    }
}

/// A request.
#[derive(Clone, Debug)]
pub struct SipRequest {
    pub method: SipMethod,
    pub uri: String,
    pub headers: SipHeaders,
    pub body: Vec<u8>,
}

impl SipRequest {
    /// A request without header fields and body.
    pub fn new(method: SipMethod, uri: &str) -> (r: Self)
        ensures
            r.method == method,
            r.uri@ == uri@,
            r.headers@ == Seq::<Field>::empty(),
            r.body@ == Seq::<u8>::empty(),
    {
        SipRequest { method, uri: uri.to_owned(), headers: SipHeaders::new(), body: Vec::new() }
    }
}

/// A response.
#[derive(Clone, Debug)]
pub struct SipResponse {
    pub status_code: u16,
    pub reason: String,
    pub headers: SipHeaders,
    pub body: Vec<u8>,
}

/// The contents of a response.
#[verifier::ext_equal]
pub struct ResponseView {
    pub status: u16,
    pub reason: Seq<char>,
    pub headers: Seq<Field>,
    pub body: Seq<u8>,
}

impl View for SipResponse {
    type V = ResponseView;

    open spec fn view(&self) -> ResponseView {
        ResponseView {
            status: self.status_code,
            reason: self.reason@,
            headers: self.headers@,
            body: self.body@,
        }
    }
}

impl ResponseView {
    /// The response with `value` as the value of `name`.
    pub open spec fn with(self, name: Seq<char>, value: Seq<char>) -> ResponseView {
        ResponseView { headers: with_header(self.headers, name, value), ..self }
    }

    /// The response with the body `body`.
    pub open spec fn with_body(self, body: Seq<u8>) -> ResponseView {
        ResponseView { body, ..self }
    }
}

/// The response of `status` to a request with `fields`, before anything is added
/// to it: `Via`, `From`, `To`, `Call-ID` and `CSeq` are taken over (RFC 3261
/// §8.2.6.2).
pub open spec fn skeleton(fields: Seq<Field>, status: u16, reason: Seq<char>) -> ResponseView {
    ResponseView {
        status,
        reason,
        headers: copied(fields, "Via"@) + field_of(fields, "From"@) + field_of(fields, "To"@)
            + field_of(fields, "Call-ID"@) + field_of(fields, "CSeq"@),
        body: Seq::empty(),
    }
}

/// The response of `status` to `request`, with the header fields that every
/// response takes over from its request.
pub fn build_response_skeleton(request: &SipRequest, status: u16, reason: &str) -> (r: SipResponse)
    ensures
        r@ == skeleton(request.headers@, status, reason@),
{
    let mut headers: SipHeaders = SipHeaders::new();
    headers.copy_all(&request.headers, "Via");
    headers.copy_first(&request.headers, "From");
    headers.copy_first(&request.headers, "To");
    headers.copy_first(&request.headers, "Call-ID");
    headers.copy_first(&request.headers, "CSeq");
    assert(headers@ =~= skeleton(request.headers@, status, reason@).headers);
    let r = SipResponse {
        status_code: status,
        reason: reason.to_owned(),
        headers,
        body: Vec::new(),
    };
    assert(r@ =~= skeleton(request.headers@, status, reason@));
    r
}

proof fn lemma_header_of_concat(a: Seq<Field>, b: Seq<Field>, name: Seq<char>)
    ensures
        header(a + b, name) == (match header(a, name) {
            Some(value) => Some(value),
            None => header(b, name),
        }),
    decreases a.len(),
{
    if a.len() == 0 {
        assert(a + b =~= b);
    } else {
        lemma_header_of_concat(a.drop_first(), b, name);
        assert((a + b).drop_first() =~= a.drop_first() + b);
        assert((a + b).first() == a.first());
    }
}

/// A field is read under any spelling of its name (RFC 3261 §7.3.1).
pub proof fn law_header_names_have_no_case(fields: Seq<Field>, name: Seq<char>, other: Seq<char>)
    requires
        same_ignoring_case(name, other),
    ensures
        header(fields, name) == header(fields, other),
    decreases fields.len(),
{
    if fields.len() > 0 {
        law_header_names_have_no_case(fields.drop_first(), name, other);
    }
}

proof fn lemma_header_of_one(name: Seq<char>, value: Seq<char>, other: Seq<char>)
    ensures
        header(seq![(name, value)], other) == (if same_ignoring_case(name, other) {
            Some(value)
        } else {
            None
        }),
{
    let one: Seq<Field> = seq![(name, value)];
    assert(one.first() == (name, value));
    assert(one.drop_first() =~= Seq::<Field>::empty());
    assert(header(one.drop_first(), other) is None);
}

proof fn lemma_header_of_copied(fields: Seq<Field>, name: Seq<char>, other: Seq<char>)
    ensures
        header(copied(fields, name), other) == (if same_ignoring_case(name, other) {
            header(fields, other)
        } else {
            None
        }),
    decreases fields.len(),
{
    if fields.len() > 0 {
        let front = fields.drop_last();
        let last = fields.last();
        lemma_header_of_copied(front, name, other);
        assert(front + seq![last] =~= fields);
        lemma_header_of_concat(front, seq![last], other);
        lemma_header_of_one(last.0, last.1, other);
        if same_ignoring_case(last.0, name) {
            assert(copied(front, name).push((name, last.1)) =~= copied(front, name) + seq![
                (name, last.1),
            ]);
            lemma_header_of_concat(copied(front, name), seq![(name, last.1)], other);
            lemma_header_of_one(name, last.1, other);
        }
    }
}

proof fn lemma_header_of_field(fields: Seq<Field>, name: Seq<char>, other: Seq<char>)
    ensures
        header(field_of(fields, name), other) == (if same_ignoring_case(name, other) {
            header(fields, other)
        } else {
            None
        }),
{
    if same_ignoring_case(name, other) {
        law_header_names_have_no_case(fields, name, other);
    }
    if let Some(value) = header(fields, name) {
        lemma_header_of_one(name, value, other);
    }
}

/// A response takes over the `Via`, `From`, `To`, `Call-ID` and `CSeq` fields of its
/// request, under any spelling of their names, and nothing else (RFC 3261 §8.2.6.2): it
/// has the status and the reason phrase that it is given, and no body.
pub proof fn law_response_takes_over_what_names_the_request(
    fields: Seq<Field>,
    status: u16,
    reason: Seq<char>,
    name: Seq<char>,
)
    ensures
        ({
            let resp = skeleton(fields, status, reason);
            &&& resp.status == status
            &&& resp.reason == reason
            &&& resp.body.len() == 0
            &&& header(resp.headers, name) == (if same_ignoring_case("via"@, name)
                || same_ignoring_case("from"@, name) || same_ignoring_case("to"@, name)
                || same_ignoring_case("call-id"@, name) || same_ignoring_case("cseq"@, name) {
                header(fields, name)
            } else {
                None
            })
        }),
{
    reveal_strlit("via");
    reveal_strlit("Via");
    reveal_strlit("from");
    reveal_strlit("From");
    reveal_strlit("to");
    reveal_strlit("To");
    reveal_strlit("call-id");
    reveal_strlit("Call-ID");
    reveal_strlit("cseq");
    reveal_strlit("CSeq");
    assert(folded("via"@) =~= folded("Via"@));
    assert(folded("from"@) =~= folded("From"@));
    assert(folded("to"@) =~= folded("To"@));
    assert(folded("call-id"@) =~= folded("Call-ID"@));
    assert(folded("cseq"@) =~= folded("CSeq"@));
    let a = copied(fields, "Via"@);
    let b = field_of(fields, "From"@);
    let c = field_of(fields, "To"@);
    let d = field_of(fields, "Call-ID"@);
    let e = field_of(fields, "CSeq"@);
    lemma_header_of_copied(fields, "Via"@, name);
    lemma_header_of_field(fields, "From"@, name);
    lemma_header_of_field(fields, "To"@, name);
    lemma_header_of_field(fields, "Call-ID"@, name);
    lemma_header_of_field(fields, "CSeq"@, name);
    lemma_header_of_concat(a, b, name);
    lemma_header_of_concat(a + b, c, name);
    lemma_header_of_concat(a + b + c, d, name);
    lemma_header_of_concat(a + b + c + d, e, name);
}

/// The values of the fields called `name`, in order.
pub open spec fn values_of(fields: Seq<Field>, name: Seq<char>) -> Seq<Seq<char>>
    decreases fields.len(),
{
    if fields.len() == 0 {
        Seq::empty()
    } else if same_ignoring_case(fields.last().0, name) {
        values_of(fields.drop_last(), name).push(fields.last().1)
    } else {
        values_of(fields.drop_last(), name)
    }
}

proof fn lemma_values_of_concat(a: Seq<Field>, b: Seq<Field>, name: Seq<char>)
    ensures
        values_of(a + b, name) == values_of(a, name) + values_of(b, name),
    decreases b.len(),
{
    if b.len() == 0 {
        assert(a + b =~= a);
        assert(values_of(a, name) + values_of(b, name) =~= values_of(a, name));
    } else {
        lemma_values_of_concat(a, b.drop_last(), name);
        assert((a + b).drop_last() =~= a + b.drop_last());
        assert((a + b).last() == b.last());
        assert(values_of(a + b, name) =~= values_of(a, name) + values_of(b, name));
    }
}

proof fn lemma_values_of_copied(fields: Seq<Field>, name: Seq<char>)
    ensures
        values_of(copied(fields, name), name) == values_of(fields, name),
    decreases fields.len(),
{
    if fields.len() > 0 {
        let front = fields.drop_last();
        lemma_values_of_copied(front, name);
        if same_ignoring_case(fields.last().0, name) {
            let all = copied(front, name).push((name, fields.last().1));
            assert(all.drop_last() =~= copied(front, name));
        }
    }
}

proof fn lemma_values_of_field(fields: Seq<Field>, name: Seq<char>, other: Seq<char>)
    requires
        !same_ignoring_case(name, other),
    ensures
        values_of(field_of(fields, name), other) == Seq::<Seq<char>>::empty(),
{
    if let Some(value) = header(fields, name) {
        let one: Seq<Field> = seq![(name, value)];
        assert(one.drop_last() =~= Seq::<Field>::empty());
        assert(values_of(one.drop_last(), other) =~= Seq::<Seq<char>>::empty());
    }
}

/// All `Via` fields of a request stand in the response to it, in order, so that the
/// response finds its way back (RFC 3261 §8.2.6.2).
pub proof fn law_response_goes_back_the_way_of_the_request(
    fields: Seq<Field>,
    status: u16,
    reason: Seq<char>,
)
    ensures
        values_of(skeleton(fields, status, reason).headers, "Via"@) == values_of(fields, "Via"@),
{
    reveal_strlit("Via");
    reveal_strlit("From");
    reveal_strlit("To");
    reveal_strlit("Call-ID");
    reveal_strlit("CSeq");
    assert(folded("Via"@).len() == 3);
    assert(folded("From"@).len() == 4);
    assert(folded("To"@).len() == 2);
    assert(folded("Call-ID"@).len() == 7);
    assert(folded("CSeq"@).len() == 4);
    let a = copied(fields, "Via"@);
    let b = field_of(fields, "From"@);
    let c = field_of(fields, "To"@);
    let d = field_of(fields, "Call-ID"@);
    let e = field_of(fields, "CSeq"@);
    lemma_values_of_copied(fields, "Via"@);
    lemma_values_of_field(fields, "From"@, "Via"@);
    lemma_values_of_field(fields, "To"@, "Via"@);
    lemma_values_of_field(fields, "Call-ID"@, "Via"@);
    lemma_values_of_field(fields, "CSeq"@, "Via"@);
    lemma_values_of_concat(a, b, "Via"@);
    lemma_values_of_concat(a + b, c, "Via"@);
    lemma_values_of_concat(a + b + c, d, "Via"@);
    lemma_values_of_concat(a + b + c + d, e, "Via"@);
    let none = Seq::<Seq<char>>::empty();
    let vias = values_of(fields, "Via"@);
    assert(vias + none + none + none + none =~= vias);
}

proof fn lemma_values_of_one(name: Seq<char>, value: Seq<char>, other: Seq<char>)
    ensures
        values_of(seq![(name, value)], other) == (if same_ignoring_case(name, other) {
            seq![value]
        } else {
            Seq::empty()
        }),
{
    let one: Seq<Field> = seq![(name, value)];
    let none = Seq::<Seq<char>>::empty();
    assert(one.drop_last() =~= Seq::<Field>::empty());
    assert(values_of(one.drop_last(), other) =~= none);
    assert(none.push(value) =~= seq![value]);
}

proof fn lemma_values_of_without(fields: Seq<Field>, name: Seq<char>, other: Seq<char>)
    ensures
        values_of(without(fields, name), other) == (if same_ignoring_case(name, other) {
            Seq::empty()
        } else {
            values_of(fields, other)
        }),
    decreases fields.len(),
{
    reveal(Seq::filter);
    let keep = |f: Field| !same_ignoring_case(f.0, name);
    if fields.len() > 0 {
        let front = fields.drop_last();
        lemma_values_of_without(front, name, other);
        if keep(fields.last()) {
            let kept = without(front, name);
            assert(without(fields, name) =~= kept.push(fields.last()));
            assert(kept.push(fields.last()).drop_last() =~= kept);
        } else {
            assert(without(fields, name) =~= without(front, name));
        }
    } else {
        assert(without(fields, name) =~= Seq::<Field>::empty());
    }
}

/// A field that is set has one value, the given one, and the values of every other field
/// stay, in order.
pub proof fn law_set_field_has_one_value(
    fields: Seq<Field>,
    name: Seq<char>,
    value: Seq<char>,
    other: Seq<char>,
)
    ensures
        values_of(with_header(fields, name, value), other) == (if same_ignoring_case(name, other) {
            seq![value]
        } else {
            values_of(fields, other)
        }),
    decreases fields.len(),
{
    lemma_values_of_one(name, value, other);
    let one: Seq<Field> = seq![(name, value)];
    let none = Seq::<Seq<char>>::empty();
    if fields.len() == 0 {
        assert(fields =~= Seq::<Field>::empty());
        assert(values_of(fields, other) =~= none);
    } else {
        let first = fields.first();
        let rest = fields.drop_first();
        assert(seq![first] + rest =~= fields);
        lemma_values_of_concat(seq![first], rest, other);
        lemma_values_of_one(first.0, first.1, other);
        if same_ignoring_case(first.0, name) {
            lemma_values_of_without(rest, name, other);
            lemma_values_of_concat(one, without(rest, name), other);
            assert(seq![value] + none =~= seq![value]);
            assert(none + values_of(rest, other) =~= values_of(rest, other));
        } else {
            law_set_field_has_one_value(rest, name, value, other);
            lemma_values_of_concat(seq![first], with_header(rest, name, value), other);
            assert(none + seq![value] =~= seq![value]);
        }
    }
}

/// All values of a field are read under any spelling of its name.
pub proof fn law_values_have_no_case(fields: Seq<Field>, name: Seq<char>, other: Seq<char>)
    requires
        same_ignoring_case(name, other),
    ensures
        values_of(fields, name) == values_of(fields, other),
    decreases fields.len(),
{
    if fields.len() > 0 {
        law_values_have_no_case(fields.drop_last(), name, other);
    }
}

} // verus!
