use ciborium::Value;
use handshake::codec::{decode_value, encode_value};
use handshake::messages::{
    AcceptVersion, Message, NodeToNodeVersionData, ProposeVersion, RefuseReason,
};
use handshake::value::CborValue;

/// The value of this library that holds what `value` holds: written out by
/// `ciborium`, read back by the library.
fn received(value: &Value) -> CborValue {
    let mut bytes = Vec::new();
    ciborium::into_writer(value, &mut bytes).unwrap();
    decode_value(&bytes).unwrap()
}

/// The `ciborium` value that holds what `value` holds: written out by the
/// library, read back by `ciborium`.
fn sent(value: &CborValue) -> Value {
    let mut bytes = Vec::new();
    encode_value(value, &mut bytes);
    ciborium::from_reader(bytes.as_slice()).unwrap()
}

#[test]
fn propose_versions() {
    let message = Message::ProposeVersions(vec![
        ProposeVersion::Index(0),
        ProposeVersion::create_version_table(&vec![7, 8, 9, 10], 1),
    ]);
    assert!(format!("{:?}", message).eq("ProposeVersions([Index(0), VersionTable([(7, [NetworkMagic(1), InitiatorAndResponderDiffusionMode(false)]), (8, [NetworkMagic(1), InitiatorAndResponderDiffusionMode(false)]), (9, [NetworkMagic(1), InitiatorAndResponderDiffusionMode(false)]), (10, [NetworkMagic(1), InitiatorAndResponderDiffusionMode(false)])])])"));

    let value = sent(&message.to_value().unwrap());
    assert!(format!("{:?}", value).eq("Array([Integer(Integer(0)), Map([(Integer(Integer(7)), Array([Integer(Integer(1)), Bool(false)])), (Integer(Integer(8)), Array([Integer(Integer(1)), Bool(false)])), (Integer(Integer(9)), Array([Integer(Integer(1)), Bool(false)])), (Integer(Integer(10)), Array([Integer(Integer(1)), Bool(false)]))])])"));
}

#[test]
fn accept_versions() {
    let value = Value::Array(vec![
        Value::from(1),
        Value::from(10),
        Value::Array(vec![Value::from(1), Value::Bool(false)]),
    ]);
    assert!(format!("{:?}", value).eq("Array([Integer(Integer(1)), Integer(Integer(10)), Array([Integer(Integer(1)), Bool(false)])])"));

    let message = Message::from_value(received(&value)).unwrap();
    assert!(format!("{:?}", message).eq("AcceptVersion([Index(1), VersionNumber(10), NodeToNodeVersionData([NetworkMagic(1), InitiatorAndResponderDiffusionMode(false)])])"));
}

#[test]
fn refuse_reason_version_mismatch() {
    let value = Value::Array(vec![
        Value::from(2),
        Value::Array(vec![
            Value::from(0),
            Value::Array(vec![
                Value::from(7),
                Value::from(8),
                Value::from(9),
                Value::from(10),
            ]),
        ]),
    ]);
    assert!(format!("{:?}", value).eq("Array([Integer(Integer(2)), Array([Integer(Integer(0)), Array([Integer(Integer(7)), Integer(Integer(8)), Integer(Integer(9)), Integer(Integer(10))])])])"));

    let message = Message::from_value(received(&value)).unwrap();
    assert!(format!("{:?}", message).eq("Refuse(VersionMismatch([7, 8, 9, 10]))"));
}

#[test]
fn refuse_reason_handshake_decode_error() {
    let value = Value::Array(vec![
        Value::from(2),
        Value::Array(vec![
            Value::from(1),
            Value::from(11),
            Value::Text("unknown encoding: TList [TInt 1,TBool False]".to_owned()),
        ]),
    ]);
    assert!(format!("{:?}", value).eq("Array([Integer(Integer(2)), Array([Integer(Integer(1)), Integer(Integer(11)), Text(\"unknown encoding: TList [TInt 1,TBool False]\")])])"));

    let message = Message::from_value(received(&value)).unwrap();
    assert!(format!("{:?}", message).eq(
        "Refuse(HandshakeDecodeError(11, \"unknown encoding: TList [TInt 1,TBool False]\"))"
    ));
}

#[test]
fn refuse_reason_refused() {
    let value = Value::Array(vec![
        Value::from(2),
        Value::Array(vec![
            Value::from(2),
            Value::from(10),
            Value::Text("unknown reason".to_owned()),
        ]),
    ]);
    assert!(format!("{:?}", value).eq("Array([Integer(Integer(2)), Array([Integer(Integer(2)), Integer(Integer(10)), Text(\"unknown reason\")])])"));

    let message = Message::from_value(received(&value)).unwrap();
    println!("{:?}", message);
    assert!(format!("{:?}", message).eq("Refuse(Refused(10, \"unknown reason\"))"));
}

fn integer(number: i128) -> CborValue {
    CborValue::Integer(number)
}

fn text(content: &str) -> CborValue {
    CborValue::Text(content.to_owned())
}

fn array(items: Vec<CborValue>) -> CborValue {
    CborValue::Array(items)
}

fn error_of(value: CborValue) -> String {
    Message::from_value(value).unwrap_err()
}

#[test]
fn acceptance_is_read_from_a_value() {
    let value = array(vec![
        integer(1),
        integer(10),
        array(vec![integer(1), CborValue::Bool(false)]),
    ]);
    assert_eq!(
        Message::from_value(value),
        Ok(Message::AcceptVersion(vec![
            AcceptVersion::Index(1),
            AcceptVersion::VersionNumber(10),
            AcceptVersion::NodeToNodeVersionData(vec![
                NodeToNodeVersionData::NetworkMagic(1),
                NodeToNodeVersionData::InitiatorAndResponderDiffusionMode(false),
            ]),
        ]))
    );
}

#[test]
fn acceptance_keeps_the_order_of_the_capabilities() {
    let value = array(vec![
        integer(1),
        integer(13),
        array(vec![CborValue::Bool(true), integer(764824073), integer(2)]),
    ]);
    assert_eq!(
        Message::from_value(value),
        Ok(Message::AcceptVersion(vec![
            AcceptVersion::Index(1),
            AcceptVersion::VersionNumber(13),
            AcceptVersion::NodeToNodeVersionData(vec![
                NodeToNodeVersionData::InitiatorAndResponderDiffusionMode(true),
                NodeToNodeVersionData::NetworkMagic(764824073),
                NodeToNodeVersionData::NetworkMagic(2),
            ]),
        ]))
    );
}

#[test]
fn acceptance_with_no_capabilities() {
    let value = array(vec![integer(1), integer(10), array(vec![])]);
    assert_eq!(
        Message::from_value(value),
        Ok(Message::AcceptVersion(vec![
            AcceptVersion::Index(1),
            AcceptVersion::VersionNumber(10),
            AcceptVersion::NodeToNodeVersionData(vec![]),
        ]))
    );
}

#[test]
fn items_after_an_acceptance_are_left_alone() {
    let value = array(vec![integer(1), integer(10), array(vec![]), text("more")]);
    assert!(Message::from_value(value).is_ok());
}

#[test]
fn network_magic_is_taken_by_its_low_32_bits() {
    let read = |number: i128| NodeToNodeVersionData::from_value(&integer(number));
    assert_eq!(read(0), Ok(NodeToNodeVersionData::NetworkMagic(0)));
    assert_eq!(read(4294967295), Ok(NodeToNodeVersionData::NetworkMagic(4294967295)));
    assert_eq!(read(4294967296), Ok(NodeToNodeVersionData::NetworkMagic(0)));
    assert_eq!(read(4294967298), Ok(NodeToNodeVersionData::NetworkMagic(2)));
    assert_eq!(read(-1), Ok(NodeToNodeVersionData::NetworkMagic(4294967295)));
    assert_eq!(read(-4294967296), Ok(NodeToNodeVersionData::NetworkMagic(0)));
    assert_eq!(read(i128::MAX), Ok(NodeToNodeVersionData::NetworkMagic(4294967295)));
    assert_eq!(read(i128::MIN), Ok(NodeToNodeVersionData::NetworkMagic(0)));
}

#[test]
fn capability_of_another_kind_is_refused() {
    assert_eq!(
        NodeToNodeVersionData::from_value(&text("1")),
        Err("Do not expect any other value!".to_owned())
    );
    assert_eq!(
        NodeToNodeVersionData::from_value(&CborValue::Other),
        Err("Do not expect any other value!".to_owned())
    );
    assert_eq!(
        NodeToNodeVersionData::from_value(&CborValue::Bool(true)),
        Ok(NodeToNodeVersionData::InitiatorAndResponderDiffusionMode(true))
    );
}

#[test]
fn version_mismatch_is_read_from_a_value() {
    let value = array(vec![
        integer(2),
        array(vec![
            integer(0),
            array(vec![integer(7), integer(8), integer(9), integer(10)]),
        ]),
    ]);
    assert_eq!(
        Message::from_value(value),
        Ok(Message::Refuse(RefuseReason::VersionMismatch(vec![7, 8, 9, 10])))
    );
}

#[test]
fn version_mismatch_without_a_list_is_empty() {
    let value = array(vec![integer(2), array(vec![integer(0)])]);
    assert_eq!(
        Message::from_value(value),
        Ok(Message::Refuse(RefuseReason::VersionMismatch(vec![])))
    );
}

#[test]
fn version_mismatch_with_something_else_than_a_list_is_empty() {
    let value = array(vec![integer(2), array(vec![integer(0), integer(7)])]);
    assert_eq!(
        Message::from_value(value),
        Ok(Message::Refuse(RefuseReason::VersionMismatch(vec![])))
    );
}

#[test]
fn version_mismatch_with_an_empty_list() {
    let value = array(vec![integer(2), array(vec![integer(0), array(vec![])])]);
    assert_eq!(
        Message::from_value(value),
        Ok(Message::Refuse(RefuseReason::VersionMismatch(vec![])))
    );
}

#[test]
fn version_mismatch_of_something_else_than_integers_is_refused() {
    let value = array(vec![
        integer(2),
        array(vec![integer(0), array(vec![integer(7), text("8")])]),
    ]);
    assert_eq!(
        error_of(value),
        "Could not convert VersionMismatch version_number to integer"
    );
}

#[test]
fn handshake_decode_error_is_read_from_a_value() {
    let value = array(vec![
        integer(2),
        array(vec![
            integer(1),
            integer(11),
            text("unknown encoding: TList [TInt 1,TBool False]"),
        ]),
    ]);
    assert_eq!(
        Message::from_value(value),
        Ok(Message::Refuse(RefuseReason::HandshakeDecodeError(
            11,
            "unknown encoding: TList [TInt 1,TBool False]".to_owned()
        )))
    );
}

#[test]
fn refused_is_read_from_a_value() {
    let value = array(vec![
        integer(2),
        array(vec![integer(2), integer(10), text("unknown reason")]),
    ]);
    assert_eq!(
        Message::from_value(value),
        Ok(Message::Refuse(RefuseReason::Refused(10, "unknown reason".to_owned())))
    );
}

#[test]
fn refuse_reason_is_read_on_its_own() {
    let value = array(vec![integer(2), integer(-3), text("")]);
    assert_eq!(
        RefuseReason::from_value(&value),
        Ok(RefuseReason::Refused(-3, String::new()))
    );
}

#[test]
fn message_that_is_no_array_is_refused() {
    assert_eq!(error_of(integer(1)), "Could not convert Message into array");
    assert_eq!(error_of(text("1")), "Could not convert Message into array");
    assert_eq!(error_of(CborValue::Bool(true)), "Could not convert Message into array");
    assert_eq!(error_of(CborValue::Pairs(vec![])), "Could not convert Message into array");
    assert_eq!(error_of(CborValue::Other), "Could not convert Message into array");
}

#[test]
fn message_without_a_tag_is_refused() {
    assert_eq!(error_of(array(vec![])), "No value found at message index 0");
    assert_eq!(
        error_of(array(vec![text("1")])),
        "Could not convert index to integer"
    );
    assert_eq!(
        error_of(array(vec![array(vec![integer(1)])])),
        "Could not convert index to integer"
    );
}

#[test]
fn message_with_another_tag_is_refused() {
    assert_eq!(
        error_of(array(vec![integer(0)])),
        "Message: Do not expect any other index 0!"
    );
    assert_eq!(
        error_of(array(vec![integer(3), integer(10)])),
        "Message: Do not expect any other index 3!"
    );
    assert_eq!(
        error_of(array(vec![integer(-17)])),
        "Message: Do not expect any other index -17!"
    );
    assert_eq!(
        error_of(array(vec![integer(i128::MIN)])),
        "Message: Do not expect any other index -170141183460469231731687303715884105728!"
    );
}

#[test]
fn acceptance_with_a_missing_item_is_refused() {
    assert_eq!(
        error_of(array(vec![integer(1)])),
        "No value found at AcceptVersion index 1"
    );
    assert_eq!(
        error_of(array(vec![integer(1), integer(10)])),
        "No value found at AcceptVersion index 2"
    );
}

#[test]
fn acceptance_with_an_item_of_the_wrong_kind_is_refused() {
    assert_eq!(
        error_of(array(vec![integer(1), text("10"), array(vec![])])),
        "Could not convert version_number as integer"
    );
    assert_eq!(
        error_of(array(vec![integer(1), integer(10), integer(1)])),
        "Could not convert to array"
    );
    assert_eq!(
        error_of(array(vec![
            integer(1),
            integer(10),
            array(vec![integer(1), text("false")])
        ])),
        "Do not expect any other value!"
    );
    assert_eq!(
        error_of(array(vec![integer(1), text("10"), integer(1)])),
        "Could not convert version_number as integer"
    );
}

#[test]
fn refusal_with_a_missing_item_is_refused() {
    assert_eq!(error_of(array(vec![integer(2)])), "No value found at Refuse index 1");
    assert_eq!(error_of(array(vec![integer(2), integer(0)])), "No value found!");
    assert_eq!(
        error_of(array(vec![integer(2), array(vec![])])),
        "No value found at RefuseReason index 0"
    );
    assert_eq!(
        error_of(array(vec![integer(2), array(vec![integer(1)])])),
        "No value found at HandshakeDecodeError index 1"
    );
    assert_eq!(
        error_of(array(vec![integer(2), array(vec![integer(1), integer(11)])])),
        "No value found at HandshakeDecodeError index 2"
    );
    assert_eq!(
        error_of(array(vec![integer(2), array(vec![integer(2)])])),
        "No value found at Refused index 1"
    );
    assert_eq!(
        error_of(array(vec![integer(2), array(vec![integer(2), integer(10)])])),
        "No value found at Refused index 2"
    );
}

#[test]
fn refusal_with_an_item_of_the_wrong_kind_is_refused() {
    assert_eq!(
        error_of(array(vec![integer(2), array(vec![text("0")])])),
        "Could not convert RefuseReason index to integer"
    );
    assert_eq!(
        error_of(array(vec![
            integer(2),
            array(vec![integer(1), text("11"), text("x")])
        ])),
        "Could not convert version_number to integer"
    );
    assert_eq!(
        error_of(array(vec![
            integer(2),
            array(vec![integer(1), integer(11), integer(0)])
        ])),
        "Could not convert tstr to text"
    );
    assert_eq!(
        error_of(array(vec![
            integer(2),
            array(vec![integer(2), text("10"), text("x")])
        ])),
        "Could not convert to integer"
    );
    assert_eq!(
        error_of(array(vec![
            integer(2),
            array(vec![integer(2), integer(10), integer(0)])
        ])),
        "Could not convert Refused tstr to text"
    );
}

#[test]
fn refusal_with_another_tag_is_refused() {
    assert_eq!(
        error_of(array(vec![integer(2), array(vec![integer(3)])])),
        "RefuseReason: Do not expect any other index!"
    );
    assert_eq!(
        error_of(array(vec![integer(2), array(vec![integer(-1), integer(1), text("x")])])),
        "RefuseReason: Do not expect any other index!"
    );
}

#[test]
fn only_a_proposal_is_written() {
    let acceptance = Message::AcceptVersion(vec![AcceptVersion::Index(1)]);
    assert_eq!(acceptance.to_value(), Err("Not expecting other value".to_owned()));
    let refusal = Message::Refuse(RefuseReason::VersionMismatch(vec![]));
    assert_eq!(refusal.to_value(), Err("Not expecting other value".to_owned()));
}

#[test]
fn proposal_is_written_item_by_item() {
    let message = Message::ProposeVersions(vec![
        ProposeVersion::Index(0),
        ProposeVersion::VersionTable(vec![
            (7, vec![NodeToNodeVersionData::NetworkMagic(1)]),
            (
                9,
                vec![
                    NodeToNodeVersionData::InitiatorAndResponderDiffusionMode(true),
                    NodeToNodeVersionData::NetworkMagic(4294967295),
                ],
            ),
        ]),
        ProposeVersion::Index(-5),
    ]);
    assert_eq!(
        message.to_value(),
        Ok(array(vec![
            integer(0),
            CborValue::Pairs(vec![
                (integer(7), array(vec![integer(1)])),
                (
                    integer(9),
                    array(vec![CborValue::Bool(true), integer(4294967295)])
                ),
            ]),
            integer(-5),
        ]))
    );
}

#[test]
fn empty_proposal_is_written_as_an_empty_array() {
    assert_eq!(Message::ProposeVersions(vec![]).to_value(), Ok(array(vec![])));
}

#[test]
fn proposal_is_not_read_back() {
    let message = Message::ProposeVersions(vec![
        ProposeVersion::Index(0),
        ProposeVersion::create_version_table(&vec![7, 8, 9, 10], 1),
    ]);
    let value = message.to_value().unwrap();
    assert_eq!(
        Message::from_value(value),
        Err("Message: Do not expect any other index 0!".to_owned())
    );
}

#[test]
fn proposal_that_starts_like_another_message_is_not_read_back() {
    let like_acceptance = Message::ProposeVersions(vec![
        ProposeVersion::Index(1),
        ProposeVersion::Index(10),
        ProposeVersion::create_version_table(&vec![7], 1),
    ]);
    assert_eq!(
        Message::from_value(like_acceptance.to_value().unwrap()),
        Err("Could not convert to array".to_owned())
    );
    let like_refusal = Message::ProposeVersions(vec![
        ProposeVersion::Index(2),
        ProposeVersion::create_version_table(&vec![7], 1),
    ]);
    assert_eq!(
        Message::from_value(like_refusal.to_value().unwrap()),
        Err("No value found!".to_owned())
    );
    let table_first = Message::ProposeVersions(vec![ProposeVersion::create_version_table(
        &vec![7],
        1,
    )]);
    assert_eq!(
        Message::from_value(table_first.to_value().unwrap()),
        Err("Could not convert index to integer".to_owned())
    );
}

#[test]
fn version_number_of_an_acceptance_is_read() {
    assert_eq!(
        AcceptVersion::version_number_from_value(&integer(-7)),
        Ok(AcceptVersion::VersionNumber(-7))
    );
    assert_eq!(
        AcceptVersion::version_number_from_value(&CborValue::Bool(true)),
        Err("Could not convert version_number as integer".to_owned())
    );
}

#[test]
fn capabilities_of_an_acceptance_are_read() {
    assert_eq!(
        AcceptVersion::nodes_data_from_value(&array(vec![integer(5), CborValue::Bool(true)])),
        Ok(AcceptVersion::NodeToNodeVersionData(vec![
            NodeToNodeVersionData::NetworkMagic(5),
            NodeToNodeVersionData::InitiatorAndResponderDiffusionMode(true),
        ]))
    );
    assert_eq!(
        AcceptVersion::nodes_data_from_value(&text("x")),
        Err("Could not convert to array".to_owned())
    );
    assert_eq!(
        AcceptVersion::nodes_data_from_value(&array(vec![integer(5), CborValue::Other])),
        Err("Do not expect any other value!".to_owned())
    );
}

#[test]
fn capability_is_written_as_a_value() {
    assert_eq!(
        NodeToNodeVersionData::NetworkMagic(4294967295).to_value(),
        integer(4294967295)
    );
    assert_eq!(
        NodeToNodeVersionData::InitiatorAndResponderDiffusionMode(true).to_value(),
        CborValue::Bool(true)
    );
}

#[test]
fn proposal_item_is_written_as_a_value() {
    assert_eq!(ProposeVersion::Index(i128::MAX).to_value(), integer(i128::MAX));
    assert_eq!(
        ProposeVersion::VersionTable(vec![]).to_value(),
        CborValue::Pairs(vec![])
    );
    assert_eq!(
        ProposeVersion::VersionTable(vec![(3, vec![])]).to_value(),
        CborValue::Pairs(vec![(integer(3), array(vec![]))])
    );
}

#[test]
fn refusal_error_tells_which_item_is_of_the_wrong_kind() {
    let wrong_version = RefuseReason::from_value(&array(vec![integer(2), text("a"), text("b")]));
    let wrong_text = RefuseReason::from_value(&array(vec![integer(2), integer(10), integer(10)]));
    assert_eq!(wrong_version, Err("Could not convert to integer".to_owned()));
    assert_eq!(wrong_text, Err("Could not convert Refused tstr to text".to_owned()));
    assert_ne!(wrong_version, wrong_text);

    let wrong_version = RefuseReason::from_value(&array(vec![integer(1), text("a"), text("b")]));
    let wrong_text = RefuseReason::from_value(&array(vec![integer(1), integer(10), integer(10)]));
    assert_eq!(
        wrong_version,
        Err("Could not convert version_number to integer".to_owned())
    );
    assert_eq!(wrong_text, Err("Could not convert tstr to text".to_owned()));
    assert_ne!(wrong_version, wrong_text);
}

#[test]
fn every_failure_has_an_error_of_its_own() {
    let failing = vec![
        integer(1),
        array(vec![]),
        array(vec![text("1")]),
        array(vec![integer(0)]),
        array(vec![integer(3)]),
        array(vec![integer(1)]),
        array(vec![integer(1), integer(10)]),
        array(vec![integer(1), text("10"), array(vec![])]),
        array(vec![integer(1), integer(10), integer(1)]),
        array(vec![integer(1), integer(10), array(vec![text("x")])]),
        array(vec![integer(2)]),
        array(vec![integer(2), integer(0)]),
        array(vec![integer(2), array(vec![])]),
        array(vec![integer(2), array(vec![text("0")])]),
        array(vec![integer(2), array(vec![integer(3)])]),
        array(vec![integer(2), array(vec![integer(0), array(vec![text("7")])])]),
        array(vec![integer(2), array(vec![integer(1)])]),
        array(vec![integer(2), array(vec![integer(1), text("11")])]),
        array(vec![integer(2), array(vec![integer(1), integer(11)])]),
        array(vec![integer(2), array(vec![integer(1), integer(11), integer(0)])]),
        array(vec![integer(2), array(vec![integer(2)])]),
        array(vec![integer(2), array(vec![integer(2), text("10")])]),
        array(vec![integer(2), array(vec![integer(2), integer(10)])]),
        array(vec![integer(2), array(vec![integer(2), integer(10), integer(0)])]),
    ];
    let errors: Vec<String> = failing.into_iter().map(error_of).collect();
    for first in 0..errors.len() {
        for second in 0..first {
            assert_ne!(errors[first], errors[second]);
        }
    }
}
