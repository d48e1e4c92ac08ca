//! The Directory as the swap engine sees it: a registry in which Makers put
//! their offer under their address and from which Takers list the offers,
//! and the two requests as bytes.

use vstd::prelude::*;
use vstd::slice::slice_to_vec;
use vstd::string::*;
use vstd::utf8::{
    decode_utf8, encode_utf8, encode_utf8_decode_utf8, encode_utf8_valid_utf8, valid_utf8,
};
use crate::codec::{dec_offer, enc_offer, lemma_offer_round_trip, read_offer, write_offer};
use crate::offer::{offers_view, Offer, OfferView};
use crate::text::{str_equal, text_from_utf8};
use crate::wire::{
    dec_bytes, dec_list, dec_u8, enc_bytes, enc_items, enc_list, lemma_bytes_round_trip,
    lemma_enc_items_push, lemma_list_round_trip, lemma_u8_round_trip, read_bytes, read_u32,
    read_u8, rest, write_bytes, write_u32, write_u8,
};

verus! {

pub const TAG_REGISTER: u8 = 0;

pub const TAG_LIST: u8 = 1;

pub const TAG_REGISTERED: u8 = 0;

pub const TAG_LISTING: u8 = 1;

/// The first place among the first `upto` entries that holds the address,
/// or `upto` where none does.
pub open spec fn spec_place(entries: Seq<OfferView>, address: Seq<char>, upto: int) -> int
    decreases upto,
{
    if upto <= 0 {
        0
    } else {
        let before = spec_place(entries, address, upto - 1);
        if before < upto - 1 || entries[upto - 1].address == address {
            before
        } else {
            upto
        }
    }
}

/// The entries after an offer is put: it takes the place of the entry with
/// its address, or is added at the end where there is none.
pub open spec fn spec_put(entries: Seq<OfferView>, offer: OfferView) -> Seq<OfferView> {
    let place = spec_place(entries, offer.address, entries.len() as int);
    if place < entries.len() {
        entries.update(place, offer)
    } else {
        entries.push(offer)
    }
}

/// The place that is found holds the address, and no place before it does.
pub proof fn lemma_place(entries: Seq<OfferView>, address: Seq<char>, upto: int)
    requires
        0 <= upto <= entries.len(),
    ensures
        0 <= spec_place(entries, address, upto) <= upto,
        spec_place(entries, address, upto) < upto ==> entries[spec_place(
            entries,
            address,
            upto,
        )].address == address,
        forall|j: int|
            0 <= j < spec_place(entries, address, upto) ==> (#[trigger] entries[j]).address
                != address,
    decreases upto,
{
    if upto > 0 {
        lemma_place(entries, address, upto - 1);
    }
}

/// The place of an address depends only on the addresses of the entries.
pub proof fn lemma_place_by_addresses(
    left: Seq<OfferView>,
    right: Seq<OfferView>,
    address: Seq<char>,
    upto: int,
)
    requires
        0 <= upto <= left.len(),
        upto <= right.len(),
        forall|j: int| 0 <= j < upto ==> left[j].address == right[j].address,
    ensures
        spec_place(left, address, upto) == spec_place(right, address, upto),
    decreases upto,
{
    if upto > 0 {
        lemma_place_by_addresses(left, right, address, upto - 1);
    }
}

/// Putting an offer twice gives what putting it once gives.
pub proof fn lemma_put_idempotent(entries: Seq<OfferView>, offer: OfferView)
    ensures
        spec_put(spec_put(entries, offer), offer) == spec_put(entries, offer),
{
    let n = entries.len() as int;
    let place = spec_place(entries, offer.address, n);
    let once = spec_put(entries, offer);
    lemma_place(entries, offer.address, n);
    lemma_place(once, offer.address, once.len() as int);
    let again = spec_place(once, offer.address, once.len() as int);
    assert(once[place].address == offer.address);
    if again < place {
        assert(once[again].address == offer.address);
        assert(entries[again].address == offer.address);
    }
    assert(again == place);
    assert(spec_put(once, offer) =~= once);
}

/// The offers that Makers have put, in the order in which their addresses
/// first came. No address is held twice.
#[derive(Debug)]
pub struct Registry {
    entries: Vec<Offer>,
}

impl View for Registry {
    type V = Seq<OfferView>;

    closed spec fn view(&self) -> Seq<OfferView> {
        offers_view(&self.entries)
    }
}

/// What a Maker or a Taker asks of the Directory.
#[derive(Debug)]
pub enum DirectoryRequest {
    /// Put the offer under its address.
    Register { offer: Offer },
    /// List the offers.
    List,
}

/// What a `DirectoryRequest` holds.
pub enum DirectoryRequestView {
    Register { offer: OfferView },
    List,
}

impl View for DirectoryRequest {
    type V = DirectoryRequestView;

    open spec fn view(&self) -> DirectoryRequestView {
        match self {
            DirectoryRequest::Register { offer } => DirectoryRequestView::Register {
                offer: offer@,
            },
            DirectoryRequest::List => DirectoryRequestView::List,
        }
    }
}

/// What the Directory answers.
#[derive(Debug)]
pub enum DirectoryResponse {
    Registered,
    Listing { offers: Vec<Offer> },
}

/// What a `DirectoryResponse` holds.
pub enum DirectoryResponseView {
    Registered,
    Listing { offers: Seq<OfferView> },
}

impl View for DirectoryResponse {
    type V = DirectoryResponseView;

    open spec fn view(&self) -> DirectoryResponseView {
        match self {
            DirectoryResponse::Registered => DirectoryResponseView::Registered,
            DirectoryResponse::Listing { offers } => DirectoryResponseView::Listing {
                offers: offers_view(offers),
            },
        }
    }
}

/// Whether no two entries have the same address.
pub open spec fn distinct_addresses(entries: Seq<OfferView>) -> bool {
    forall|i: int, j: int|
        0 <= i < j < entries.len() ==> (#[trigger] entries[i]).address != (
        #[trigger] entries[j]).address
}

impl Registry {
    /// The registry's invariant: no address is held twice.
    pub open spec fn wf(&self) -> bool {
        distinct_addresses(self@)
    }

    /// An empty registry.
    pub fn new() -> (registry: Registry)
        ensures
            registry.wf(),
            registry@ == Seq::<OfferView>::empty(),
    {
        let registry = Registry { entries: Vec::new() };
        assert(registry@ =~= Seq::<OfferView>::empty());
        registry
    }

    /// Puts an offer under its address. Returns whether the address is new.
    /// Putting the same offer again changes nothing.
    pub fn register(&mut self, offer: Offer) -> (fresh: bool)
        requires
            old(self).wf(),
        ensures
            final(self).wf(),
            final(self)@ == spec_put(old(self)@, offer@),
            fresh == (spec_place(old(self)@, offer@.address, old(self)@.len() as int) == old(
                self,
            )@.len()),
            spec_put(final(self)@, offer@) == final(self)@,
    {
        let ghost before = self@;
        let ghost added = offer@;
        let mut i: usize = 0;
        while i < self.entries.len()
            invariant
                i <= self.entries@.len(),
                self@ == before,
                before == old(self)@,
                distinct_addresses(before),
                added == offer@,
                spec_place(before, added.address, i as int) == i,
            decreases self.entries@.len() - i,
        {
            assert(before[i as int] == self.entries@[i as int]@);
            if str_equal(self.entries[i].address.as_str(), offer.address.as_str()) {
                proof {
                    lemma_place_found(before, added.address, i as int, before.len() as int);
                    lemma_put_idempotent(before, added);
                }
                self.entries[i] = offer;
                proof {
                    assert(self@ =~= before.update(i as int, added));
                    assert forall|a: int, b: int| 0 <= a < b < self@.len() implies (
                    #[trigger] self@[a]).address != (#[trigger] self@[b]).address by {
                        assert(self@[a].address == before[a].address);
                        assert(self@[b].address == before[b].address);
                    }
                }
                return false;
            }
            i += 1;
        }
        self.entries.push(offer);
        proof {
            lemma_put_idempotent(before, added);
            assert(self@ =~= before.push(added));
            lemma_place(before, added.address, before.len() as int);
            assert forall|a: int, b: int| 0 <= a < b < self@.len() implies (
            #[trigger] self@[a]).address != (#[trigger] self@[b]).address by {
                if b < before.len() {
                    assert(self@[a] == before[a] && self@[b] == before[b]);
                } else {
                    assert(self@[a] == before[a]);
                }
            }
        }
        true
    }

    /// The offers, in the order in which their addresses first came.
    pub fn list(&self) -> (offers: Vec<Offer>)
        ensures
            offers_view(&offers) == self@,
    {
        let mut offers: Vec<Offer> = Vec::new();
        let mut i: usize = 0;
        while i < self.entries.len()
            invariant
                i <= self.entries@.len(),
                offers_view(&offers) == self@.subrange(0, i as int),
            decreases self.entries@.len() - i,
        {
            let ghost before = offers_view(&offers);
            offers.push(self.entries[i].clone());
            assert(offers_view(&offers) =~= before.push(self@[i as int]));
            assert(offers_view(&offers) =~= self@.subrange(0, i + 1));
            i += 1;
        }
        assert(self@.subrange(0, self@.len() as int) =~= self@);
        offers
    }

    /// Answers a request.
    pub fn serve(&mut self, request: DirectoryRequest) -> (response: DirectoryResponse)
        requires
            old(self).wf(),
        ensures
            final(self).wf(),
            match request@ {
                DirectoryRequestView::Register { offer } => final(self)@ == spec_put(
                    old(self)@,
                    offer,
                ) && response@ == DirectoryResponseView::Registered,
                DirectoryRequestView::List => final(self)@ == old(self)@ && response@
                    == (DirectoryResponseView::Listing { offers: old(self)@ }),
            },
    {
        match request {
            DirectoryRequest::Register { offer } => {
                self.register(offer);
                DirectoryResponse::Registered
            },
            DirectoryRequest::List => DirectoryResponse::Listing { offers: self.list() },
        }
    }
}

/// Where the address stands at a place and nowhere before it, that place is
/// found, however many entries are searched.
pub proof fn lemma_place_found(entries: Seq<OfferView>, address: Seq<char>, place: int, upto: int)
    requires
        0 <= place < upto <= entries.len(),
        spec_place(entries, address, place) == place,
        entries[place].address == address,
    ensures
        spec_place(entries, address, upto) == place,
    decreases upto,
{
    if upto > place + 1 {
        lemma_place_found(entries, address, place, upto - 1);
    }
}

/// A text as bytes: its UTF-8 encoding as a byte string.
pub open spec fn enc_text(text: Seq<char>) -> Seq<u8> {
    enc_bytes(encode_utf8(text))
}

/// Reads a text.
pub open spec fn dec_text(s: Seq<u8>) -> Option<(Seq<char>, Seq<u8>)> {
    match dec_bytes(s) {
        Some((bytes, tail)) => if valid_utf8(bytes) {
            Some((decode_utf8(bytes), tail))
        } else {
            None
        },
        None => None,
    }
}

/// An entry as bytes: the address, then the terms.
pub open spec fn enc_entry(o: OfferView) -> Seq<u8> {
    enc_text(o.address) + enc_offer(o.terms)
}

/// Reads an entry.
pub open spec fn dec_entry(s: Seq<u8>) -> Option<(OfferView, Seq<u8>)> {
    match dec_text(s) {
        Some((address, s1)) => match dec_offer(s1) {
            Some((terms, s2)) => Some((OfferView { address, terms }, s2)),
            None => None,
        },
        None => None,
    }
}

/// How an entry is written.
pub open spec fn entry_enc() -> spec_fn(OfferView) -> Seq<u8> {
    |o: OfferView| enc_entry(o)
}

/// How an entry is read.
pub open spec fn entry_dec() -> spec_fn(Seq<u8>) -> Option<(OfferView, Seq<u8>)> {
    |s: Seq<u8>| dec_entry(s)
}

/// Whether the lengths in an entry can be written.
pub open spec fn entry_encodable(o: OfferView) -> bool {
    encode_utf8(o.address).len() <= u32::MAX && o.terms.fidelity.public_key.len() <= u32::MAX
}

/// Whether the lengths in a list of entries can be written.
pub open spec fn entries_encodable(entries: Seq<OfferView>) -> bool {
    entries.len() <= u32::MAX && forall|i: int|
        0 <= i < entries.len() ==> entry_encodable(#[trigger] entries[i])
}

/// A request as bytes.
pub open spec fn spec_encode_request(r: DirectoryRequestView) -> Seq<u8> {
    match r {
        DirectoryRequestView::Register { offer } => seq![TAG_REGISTER] + enc_entry(offer),
        DirectoryRequestView::List => seq![TAG_LIST],
    }
}

/// The request that the bytes are, where they are one and nothing follows.
pub open spec fn spec_decode_request(s: Seq<u8>) -> Option<DirectoryRequestView> {
    match dec_u8(s) {
        None => None,
        Some((tag, body)) => if tag == TAG_REGISTER {
            match dec_entry(body) {
                Some((offer, end)) => if end.len() == 0 {
                    Some(DirectoryRequestView::Register { offer })
                } else {
                    None
                },
                None => None,
            }
        } else if tag == TAG_LIST {
            if body.len() == 0 {
                Some(DirectoryRequestView::List)
            } else {
                None
            }
        } else {
            None
        },
    }
}

/// A response as bytes.
pub open spec fn spec_encode_response(r: DirectoryResponseView) -> Seq<u8> {
    match r {
        DirectoryResponseView::Registered => seq![TAG_REGISTERED],
        DirectoryResponseView::Listing { offers } => seq![TAG_LISTING] + enc_list(
            offers,
            entry_enc(),
        ),
    }
}

/// The response that the bytes are, where they are one and nothing follows.
pub open spec fn spec_decode_response(s: Seq<u8>) -> Option<DirectoryResponseView> {
    match dec_u8(s) {
        None => None,
        Some((tag, body)) => if tag == TAG_REGISTERED {
            if body.len() == 0 {
                Some(DirectoryResponseView::Registered)
            } else {
                None
            }
        } else if tag == TAG_LISTING {
            match dec_list(body, entry_dec()) {
                Some((offers, end)) => if end.len() == 0 {
                    Some(DirectoryResponseView::Listing { offers })
                } else {
                    None
                },
                None => None,
            }
        } else {
            None
        },
    }
}

/// Reading gives back the entry that was written.
pub proof fn lemma_entry_round_trip(o: OfferView, tail: Seq<u8>)
    requires
        entry_encodable(o),
    ensures
        dec_entry(enc_entry(o) + tail) == Some((o, tail)),
{
    let s1 = enc_offer(o.terms) + tail;
    assert(enc_entry(o) + tail =~= enc_text(o.address) + s1);
    lemma_bytes_round_trip(encode_utf8(o.address), s1);
    encode_utf8_valid_utf8(o.address);
    encode_utf8_decode_utf8(o.address);
    lemma_offer_round_trip(o.terms, tail);
}

/// A request that was written is read back as it was.
pub proof fn lemma_request_round_trip(r: DirectoryRequestView)
    requires
        r matches DirectoryRequestView::Register { offer } ==> entry_encodable(offer),
    ensures
        spec_decode_request(spec_encode_request(r)) == Some(r),
{
    let empty = Seq::<u8>::empty();
    match r {
        DirectoryRequestView::Register { offer } => {
            lemma_u8_round_trip(TAG_REGISTER, enc_entry(offer));
            lemma_entry_round_trip(offer, empty);
            assert(enc_entry(offer) + empty =~= enc_entry(offer));
        },
        DirectoryRequestView::List => {
            lemma_u8_round_trip(TAG_LIST, empty);
            assert(seq![TAG_LIST] + empty =~= seq![TAG_LIST]);
        },
    }
}

/// A response that was written is read back as it was.
pub proof fn lemma_response_round_trip(r: DirectoryResponseView)
    requires
        r matches DirectoryResponseView::Listing { offers } ==> entries_encodable(offers),
    ensures
        spec_decode_response(spec_encode_response(r)) == Some(r),
{
    let empty = Seq::<u8>::empty();
    match r {
        DirectoryResponseView::Registered => {
            lemma_u8_round_trip(TAG_REGISTERED, empty);
            assert(seq![TAG_REGISTERED] + empty =~= seq![TAG_REGISTERED]);
        },
        DirectoryResponseView::Listing { offers } => {
            let list = enc_list(offers, entry_enc());
            lemma_u8_round_trip(TAG_LISTING, list);
            assert forall|i: int, after: Seq<u8>| 0 <= i < offers.len() implies #[trigger] entry_dec()(
                entry_enc()(offers[i]) + after,
            ) == Some((offers[i], after)) by {
                lemma_entry_round_trip(offers[i], after);
            }
            lemma_list_round_trip(offers, entry_enc(), entry_dec(), empty);
            assert(list + empty =~= list);
        },
    }
}

/// Writes an entry. Returns whether its lengths can be written.
pub fn write_entry(buffer: &mut Vec<u8>, offer: &Offer) -> (written: bool)
    ensures
        written == entry_encodable(offer@),
        written ==> final(buffer)@ == old(buffer)@ + enc_entry(offer@),
{
    let address = slice_to_vec(offer.address.as_str().as_bytes());
    if address.len() > u32::MAX as usize || offer.terms.fidelity.public_key.len()
        > u32::MAX as usize {
        return false;
    }
    write_bytes(buffer, &address);
    write_offer(buffer, &offer.terms);
    assert(buffer@ =~= old(buffer)@ + enc_entry(offer@));
    true
}

/// Reads an entry at place `at`.
pub fn read_entry(data: &Vec<u8>, at: usize) -> (read: Option<(Offer, usize)>)
    requires
        at <= data@.len(),
    ensures
        match dec_entry(rest(data@, at as int)) {
            Some((o, tail)) => read matches Some(r) && r.0@ == o && at <= r.1 <= data@.len()
                && rest(data@, r.1 as int) == tail,
            None => read is None,
        },
{
    let (bytes, end1) = match read_bytes(data, at) {
        Some(r) => r,
        None => {
            return None;
        },
    };
    let address = match text_from_utf8(bytes) {
        Some(address) => address,
        None => {
            return None;
        },
    };
    let (terms, end2) = match read_offer(data, end1) {
        Some(r) => r,
        None => {
            return None;
        },
    };
    Some((Offer { address, terms }, end2))
}

/// Writes a request; `None` where a length in it cannot be written. What
/// is written is read back as the same request.
pub fn encode_request(request: &DirectoryRequest) -> (bytes: Option<Vec<u8>>)
    ensures
        bytes is Some <==> (request@ matches DirectoryRequestView::Register { offer }
            ==> entry_encodable(offer)),
        bytes matches Some(b) ==> b@ == spec_encode_request(request@) && spec_decode_request(b@)
            == Some(request@),
{
    let mut buffer: Vec<u8> = Vec::new();
    let written: bool = match request {
        DirectoryRequest::Register { offer } => {
            write_u8(&mut buffer, TAG_REGISTER);
            write_entry(&mut buffer, offer)
        },
        DirectoryRequest::List => {
            write_u8(&mut buffer, TAG_LIST);
            true
        },
    };
    if written {
        proof {
            assert(buffer@ =~= spec_encode_request(request@));
            lemma_request_round_trip(request@);
        }
        Some(buffer)
    } else {
        None
    }
}

/// What an optional request holds.
pub open spec fn request_view(request: Option<DirectoryRequest>) -> Option<DirectoryRequestView> {
    match request {
        Some(r) => Some(r@),
        None => None,
    }
}

/// What an optional response holds.
pub open spec fn response_view(response: Option<DirectoryResponse>) -> Option<DirectoryResponseView> {
    match response {
        Some(r) => Some(r@),
        None => None,
    }
}

/// Reads a request; `None` where the bytes are none, or more than one.
pub fn decode_request(data: &Vec<u8>) -> (request: Option<DirectoryRequest>)
    ensures
        request_view(request) == spec_decode_request(data@),
{
    assert(rest(data@, 0) =~= data@);
    let (tag, body) = match read_u8(data, 0) {
        Some(r) => r,
        None => {
            return None;
        },
    };
    if tag == TAG_REGISTER {
        match read_entry(data, body) {
            Some((offer, end)) => if end == data.len() {
                Some(DirectoryRequest::Register { offer })
            } else {
                None
            },
            None => None,
        }
    } else if tag == TAG_LIST {
        if body == data.len() {
            Some(DirectoryRequest::List)
        } else {
            None
        }
    } else {
        None
    }
}

/// Writes a response; `None` where a length in it cannot be written. What
/// is written is read back as the same response.
pub fn encode_response(response: &DirectoryResponse) -> (bytes: Option<Vec<u8>>)
    ensures
        bytes is Some <==> (response@ matches DirectoryResponseView::Listing { offers }
            ==> entries_encodable(offers)),
        bytes matches Some(b) ==> b@ == spec_encode_response(response@) && spec_decode_response(
            b@,
        ) == Some(response@),
{
    let mut buffer: Vec<u8> = Vec::new();
    match response {
        DirectoryResponse::Registered => {
            write_u8(&mut buffer, TAG_REGISTERED);
        },
        DirectoryResponse::Listing { offers } => {
            write_u8(&mut buffer, TAG_LISTING);
            if offers.len() > u32::MAX as usize {
                return None;
            }
            let ghost items = offers_view(offers);
            write_u32(&mut buffer, offers.len() as u32);
            let ghost head = buffer@;
            let mut i: usize = 0;
            while i < offers.len()
                invariant
                    i <= offers@.len(),
                    items == offers_view(offers),
                    response@ == (DirectoryResponseView::Listing { offers: items }),
                    buffer@ == head + enc_items(items.subrange(0, i as int), entry_enc()),
                    forall|j: int| 0 <= j < i ==> entry_encodable(#[trigger] items[j]),
                decreases offers@.len() - i,
            {
                assert(items[i as int] == offers@[i as int]@);
                if !write_entry(&mut buffer, &offers[i]) {
                    return None;
                }
                proof {
                    lemma_enc_items_push(items.subrange(0, i as int), items[i as int], entry_enc());
                    assert(items.subrange(0, i as int).push(items[i as int]) =~= items.subrange(
                        0,
                        i + 1,
                    ));
                    assert(buffer@ =~= head + enc_items(items.subrange(0, i + 1), entry_enc()));
                }
                i += 1;
            }
            proof {
                assert(items.subrange(0, items.len() as int) =~= items);
            }
        },
    }
    proof {
        assert(buffer@ =~= spec_encode_response(response@));
        lemma_response_round_trip(response@);
    }
    Some(buffer)
}

/// Reads a response; `None` where the bytes are none, or more than one.
pub fn decode_response(data: &Vec<u8>) -> (response: Option<DirectoryResponse>)
    ensures
        response_view(response) == spec_decode_response(data@),
{
    assert(rest(data@, 0) =~= data@);
    let (tag, body) = match read_u8(data, 0) {
        Some(r) => r,
        None => {
            return None;
        },
    };
    if tag == TAG_REGISTERED {
        if body == data.len() {
            Some(DirectoryResponse::Registered)
        } else {
            None
        }
    } else if tag == TAG_LISTING {
        let (count, start) = match read_u32(data, body) {
            Some(r) => r,
            None => {
                return None;
            },
        };
        let ghost whole = crate::wire::dec_items(
            rest(data@, start as int),
            count as nat,
            entry_dec(),
        );
        let mut offers: Vec<Offer> = Vec::new();
        let mut place: usize = start;
        let mut i: u32 = 0;
        proof {
            match whole {
                Some((l, end)) => {
                    assert(Seq::<OfferView>::empty() + l =~= l);
                },
                None => {},
            }
            assert(offers_view(&offers) =~= Seq::<OfferView>::empty());
        }
        while i < count
            invariant
                i <= count,
                body <= place <= data@.len(),
                dec_list(rest(data@, body as int), entry_dec()) == whole,
                dec_u8(data@) == Some((tag, rest(data@, body as int))),
                tag == TAG_LISTING,
                whole == crate::codec::spec_continue(
                    offers_view(&offers),
                    rest(data@, place as int),
                    (count - i) as nat,
                    entry_dec(),
                ),
            decreases count - i,
        {
            proof {
                crate::codec::lemma_continue_step(
                    offers_view(&offers),
                    rest(data@, place as int),
                    (count - i) as nat,
                    entry_dec(),
                );
            }
            let (offer, next) = match read_entry(data, place) {
                Some(r) => r,
                None => {
                    return None;
                },
            };
            let ghost before = offers_view(&offers);
            let ghost added = offer@;
            offers.push(offer);
            assert(offers_view(&offers) =~= before.push(added));
            place = next;
            i += 1;
        }
        proof {
            assert(offers_view(&offers) + Seq::<OfferView>::empty() =~= offers_view(&offers));
        }
        if place == data.len() {
            Some(DirectoryResponse::Listing { offers })
        } else {
            None
        }
    } else {
        None
    }
}

} // verus!
