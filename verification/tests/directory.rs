use coinswap::amounts::FeeSchedule;
use coinswap::directory::{
    decode_request, decode_response, encode_request, encode_response, DirectoryRequest,
    DirectoryResponse, Registry,
};
use coinswap::offer::{FidelityProof, Offer, OfferTerms};

fn offer(address: &str, absolute_fee: u64) -> Offer {
    Offer {
        address: address.to_string(),
        terms: OfferTerms {
            fees: FeeSchedule { absolute_fee, relative_fee_ppb: 0 },
            min_size: 10_000,
            max_size: 1_000_000,
            fidelity: FidelityProof { bond_value: 1, bond_locktime: 100, public_key: vec![2u8; 33] },
        },
    }
}

fn listing(registry: &Registry) -> Vec<(String, u64)> {
    registry.list().iter().map(|o| (o.address.clone(), o.terms.fees.absolute_fee)).collect()
}

#[test]
fn register_is_idempotent() {
    let mut registry = Registry::new();
    assert!(registry.register(offer("127.0.0.1:6102", 1000)));
    assert!(registry.register(offer("127.0.0.1:16102", 2000)));
    let once = listing(&registry);
    assert!(!registry.register(offer("127.0.0.1:16102", 2000)));
    assert!(!registry.register(offer("127.0.0.1:6102", 1000)));
    assert_eq!(listing(&registry), once);
    assert_eq!(
        once,
        vec![("127.0.0.1:6102".to_string(), 1000), ("127.0.0.1:16102".to_string(), 2000)]
    );
}

#[test]
fn new_offer_takes_the_place_of_the_old_one() {
    let mut registry = Registry::new();
    registry.register(offer("a:1", 1));
    registry.register(offer("b:2", 2));
    registry.register(offer("c:3", 3));
    assert!(!registry.register(offer("b:2", 20)));
    assert_eq!(
        listing(&registry),
        vec![("a:1".to_string(), 1), ("b:2".to_string(), 20), ("c:3".to_string(), 3)]
    );
}

#[test]
fn requests_are_served() {
    let mut registry = Registry::new();
    let registered = registry.serve(DirectoryRequest::Register { offer: offer("a:1", 1) });
    assert!(matches!(registered, DirectoryResponse::Registered));
    match registry.serve(DirectoryRequest::List) {
        DirectoryResponse::Listing { offers } => {
            assert_eq!(offers.len(), 1);
            assert_eq!(offers[0].address, "a:1");
        }
        other => panic!("no listing: {:?}", other),
    }
}

#[test]
fn requests_and_responses_are_read_back_as_written() {
    let requests = vec![
        DirectoryRequest::List,
        DirectoryRequest::Register { offer: offer("127.0.0.1:6102", 1000) },
        DirectoryRequest::Register { offer: offer("exämple.onion:6102", 0) },
        DirectoryRequest::Register { offer: offer("", 0) },
    ];
    for request in requests {
        let bytes = encode_request(&request).unwrap();
        let read = decode_request(&bytes).unwrap();
        assert_eq!(format!("{:?}", read), format!("{:?}", request));
    }
    let responses = vec![
        DirectoryResponse::Registered,
        DirectoryResponse::Listing { offers: vec![] },
        DirectoryResponse::Listing { offers: vec![offer("a:1", 1), offer("b:2", 2)] },
    ];
    for response in responses {
        let bytes = encode_response(&response).unwrap();
        let read = decode_response(&bytes).unwrap();
        assert_eq!(format!("{:?}", read), format!("{:?}", response));
    }
}

#[test]
fn directory_bytes_have_this_layout() {
    assert_eq!(encode_request(&DirectoryRequest::List).unwrap(), vec![1]);
    assert_eq!(encode_response(&DirectoryResponse::Registered).unwrap(), vec![0]);
    assert_eq!(
        encode_response(&DirectoryResponse::Listing { offers: vec![] }).unwrap(),
        vec![1, 0, 0, 0, 0]
    );
    let register = encode_request(&DirectoryRequest::Register { offer: offer("a:1", 1) }).unwrap();
    assert_eq!(&register[..8], &[0, 3, 0, 0, 0, b'a', b':', b'1']);
    assert_eq!(register.len(), 1 + 4 + 3 + 5 * 8 + 4 + 4 + 33);
}

#[test]
fn damaged_directory_bytes_are_not_read() {
    assert!(decode_request(&vec![]).is_none());
    assert!(decode_request(&vec![2]).is_none());
    assert!(decode_request(&vec![1, 0]).is_none());
    assert!(decode_response(&vec![0, 0]).is_none());
    assert!(decode_response(&vec![1, 1, 0, 0, 0]).is_none());
    // an address that is no UTF-8
    let mut register = encode_request(&DirectoryRequest::Register { offer: offer("a:1", 1) }).unwrap();
    register[5] = 0xff;
    assert!(decode_request(&register).is_none());
}
