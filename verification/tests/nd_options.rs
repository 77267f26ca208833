use landscape::icmpv6::{IcmpV6Option, IcmpV6OptionCode};
use landscape::nd_options::IcmpV6Options;

fn create_test_data() -> Vec<IcmpV6Option> {
    vec![
        IcmpV6Option::SourceLinkLayerAddress(vec![]),
        IcmpV6Option::TargetLinkLayerAddress(vec![]),
        IcmpV6Option::SourceLinkLayerAddress(vec![]),
    ]
}

#[test]
fn test_option_code_conversion() {
    assert!(matches!(IcmpV6OptionCode::from(1u8), IcmpV6OptionCode::SourceLinkLayerAddress));
    assert!(matches!(IcmpV6OptionCode::from(2u8), IcmpV6OptionCode::TargetLinkLayerAddress));
    assert!(matches!(IcmpV6OptionCode::from(255u8), IcmpV6OptionCode::Unknown(255)));

    assert_eq!(u8::from(IcmpV6OptionCode::SourceLinkLayerAddress), 1);
    assert_eq!(u8::from(IcmpV6OptionCode::TargetLinkLayerAddress), 2);
    assert_eq!(u8::from(IcmpV6OptionCode::Unknown(255)), 255);
}

#[test]
fn test_option_ordering() {
    let a1 = IcmpV6Option::SourceLinkLayerAddress(vec![]);
    let a2 = IcmpV6Option::TargetLinkLayerAddress(vec![]);
    assert!(u8::from(a1.option_code()) < u8::from(a2.option_code()));
    assert!(u8::from(a2.option_code()) > u8::from(a1.option_code()));
    assert_eq!(a1, IcmpV6Option::SourceLinkLayerAddress(vec![]));
}

#[test]
fn test_options_new() {
    let options = IcmpV6Options::new();
    assert!(options.as_slice().is_empty());
}

#[test]
fn test_options_insert() {
    let mut options = IcmpV6Options::new();
    options.insert(IcmpV6Option::SourceLinkLayerAddress(vec![]));
    assert_eq!(options.len(), 1);
    options.insert(IcmpV6Option::TargetLinkLayerAddress(vec![]));
    assert_eq!(options.len(), 2);
    assert!(matches!(options.as_slice()[0], IcmpV6Option::SourceLinkLayerAddress(_)));
    assert!(matches!(options.as_slice()[1], IcmpV6Option::TargetLinkLayerAddress(_)));
}

#[test]
fn test_options_get() {
    let mut options = IcmpV6Options::new();
    options.insert(IcmpV6Option::SourceLinkLayerAddress(vec![]));
    options.insert(IcmpV6Option::TargetLinkLayerAddress(vec![]));

    let a1 = options.get(IcmpV6OptionCode::SourceLinkLayerAddress);
    assert!(a1.is_some());
    assert!(matches!(a1.unwrap(), IcmpV6Option::SourceLinkLayerAddress(_)));

    let a2 = options.get(IcmpV6OptionCode::TargetLinkLayerAddress);
    assert!(a2.is_some());
    assert!(matches!(a2.unwrap(), IcmpV6Option::TargetLinkLayerAddress(_)));

    let unknown = options.get(IcmpV6OptionCode::Unknown(3));
    assert!(unknown.is_none());
}

#[test]
fn test_options_get_all() {
    let mut options = IcmpV6Options::new();
    options.insert(IcmpV6Option::SourceLinkLayerAddress(vec![]));
    options.insert(IcmpV6Option::TargetLinkLayerAddress(vec![]));
    options.insert(IcmpV6Option::SourceLinkLayerAddress(vec![]));

    let all_a1 = options.get_all(IcmpV6OptionCode::SourceLinkLayerAddress);
    assert!(all_a1.is_some());
    assert_eq!(all_a1.unwrap().len(), 2);

    let all_a2 = options.get_all(IcmpV6OptionCode::TargetLinkLayerAddress);
    assert!(all_a2.is_some());
    assert_eq!(all_a2.unwrap().len(), 1);
}

#[test]
fn test_options_remove() {
    let mut options = IcmpV6Options::new();
    options.insert(IcmpV6Option::SourceLinkLayerAddress(vec![]));
    options.insert(IcmpV6Option::TargetLinkLayerAddress(vec![]));
    options.insert(IcmpV6Option::SourceLinkLayerAddress(vec![]));

    let removed = options.remove(IcmpV6OptionCode::SourceLinkLayerAddress);
    assert!(removed.is_some());
    assert!(matches!(removed.unwrap(), IcmpV6Option::SourceLinkLayerAddress(_)));
    assert_eq!(options.len(), 2);

    let all_a1 = options.get_all(IcmpV6OptionCode::SourceLinkLayerAddress);
    assert!(all_a1.is_some());
    assert_eq!(all_a1.unwrap().len(), 1);
}

#[test]
fn test_options_remove_all() {
    let mut options = IcmpV6Options::new();
    options.insert(IcmpV6Option::SourceLinkLayerAddress(vec![]));
    options.insert(IcmpV6Option::TargetLinkLayerAddress(vec![]));
    options.insert(IcmpV6Option::SourceLinkLayerAddress(vec![]));

    let removed = options.remove_all(IcmpV6OptionCode::SourceLinkLayerAddress);
    assert!(removed.is_some());
    let removed_vec: Vec<_> = removed.unwrap();
    assert_eq!(removed_vec.len(), 2);

    assert_eq!(options.len(), 1);
    assert!(matches!(options.as_slice()[0], IcmpV6Option::TargetLinkLayerAddress(_)));
}

#[test]
fn test_options_iter() {
    let options = IcmpV6Options::from_vec(create_test_data());
    let items: Vec<_> = options.iter().collect();
    assert_eq!(items.len(), 3);
}

#[test]
fn test_options_from_iterator() {
    let data = create_test_data();
    let options = IcmpV6Options::from_vec(data);
    assert_eq!(options.len(), 3);
    assert!(matches!(options.as_slice()[0], IcmpV6Option::SourceLinkLayerAddress(_)));
    assert!(matches!(options.as_slice()[1], IcmpV6Option::SourceLinkLayerAddress(_)));
    assert!(matches!(options.as_slice()[2], IcmpV6Option::TargetLinkLayerAddress(_)));
}

#[test]
fn test_options_into_iterator() {
    let options = IcmpV6Options::from_vec(create_test_data());
    let items: Vec<_> = options.into_vec().into_iter().collect();
    assert_eq!(items.len(), 3);
}

#[test]
fn decode_source_link_layer_option() {
    let bytes = [1u8, 6, 0x02, 0x00, 0x00, 0x00, 0x00, 0x01];
    let (o, n) = IcmpV6Option::decode(&bytes).unwrap();
    assert_eq!(n, 8);
    match o {
        IcmpV6Option::SourceLinkLayerAddress(d) => assert_eq!(d, vec![0x02, 0, 0, 0, 0, 0x01]),
        _ => panic!("wrong option"),
    }
}

#[test]
fn decode_keeps_unknown_codes() {
    let bytes = [3u8, 1, 7, 9];
    let opts = IcmpV6Options::decode(&bytes);
    let v = opts.into_vec();
    assert_eq!(v.len(), 1);
    match &v[0] {
        IcmpV6Option::UnknownOption(c, d) => {
            assert_eq!(*c, 3);
            assert_eq!(d, &vec![7u8]);
        },
        _ => panic!("wrong option"),
    }
}
