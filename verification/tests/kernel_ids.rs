//! Identifiers, metadata, error payloads and object references.

use rayd::kernel::error_info::{ErrorInfo, RAW_CODE_UNSPECIFIED};
use rayd::kernel::error_payload::{ErrorPayload, ErrorPayloadCodecError};
use rayd::kernel::id::{ActorId, IdParseError, JobId, ObjectId, TaskId, WorkerId};
use rayd::kernel::metadata::{ErrorCategory, Metadata, MetadataDecodeError, RefState};
use rayd::kernel::object_ref::{Address, ObjectRef};
use rayd::kernel::ray_object::RayObject;
use rayd::util::hexadecimal::HexError;

#[test]
fn job_id_hex_round_trip() {
    let id = JobId::random();
    let parsed = JobId::from_hex(&id.hex()).expect("valid hex");
    assert_eq!(id, parsed);
}

#[test]
fn object_id_from_task_round_trip() {
    let task = TaskId::random();
    let object = ObjectId::for_return(&task, 7);
    assert_eq!(object.task_id(), task);
    assert_eq!(object.return_index(), 7);
    assert_eq!(object.job_id().as_bytes(), &task.as_bytes()[..16]);
}

#[test]
fn object_id_hex_length_is_56() {
    let id = ObjectId::for_return(&TaskId::random(), 0);
    assert_eq!(id.hex().len(), 56);
}

#[test]
fn nil_ids_round_trip() {
    assert!(JobId::nil().is_nil());
    assert!(TaskId::nil().is_nil());
    assert!(ObjectId::nil().is_nil());
}

#[test]
fn from_hex_rejects_wrong_length() {
    assert!(matches!(
        JobId::from_hex("ff"),
        Err(IdParseError::WrongLength { expected: 16, got: 1 })
    ));
}

#[test]
fn from_hex_reports_odd_length_and_first_bad_character() {
    assert_eq!(WorkerId::from_hex("abc"), Err(IdParseError::Hex(HexError::OddLength)));
    assert_eq!(
        ActorId::from_hex("00zz"),
        Err(IdParseError::Hex(HexError::InvalidHexCharacter { c: 'z', index: 2 }))
    );
}

#[test]
fn hex_is_lower_case_and_parses_either_case() {
    let mut bytes = [0u8; 16];
    bytes[0] = 0xAB;
    bytes[15] = 0x0F;
    let id = WorkerId::from_bytes(bytes);
    assert_eq!(id.hex(), "ab00000000000000000000000000000f");
    assert_eq!(WorkerId::from_hex("AB00000000000000000000000000000F"), Ok(id));
    assert!(!id.is_nil());
}

#[test]
fn return_index_is_little_endian() {
    let id = ObjectId::for_return(&TaskId::from_bytes([1u8; 24]), 0x0102_0304);
    assert_eq!(id.as_bytes()[24..], [4, 3, 2, 1]);
    assert_eq!(ObjectId::for_return(&id.task_id(), id.return_index()), id);
}

#[test]
fn pickle5_round_trip() {
    for has_refs in [false, true] {
        let m = Metadata::Pickle5 { has_nested_refs: has_refs };
        let bytes = m.encode();
        assert_eq!(bytes.len(), 2);
        assert_eq!(Metadata::decode(&bytes).expect("decode"), m);
    }
}

#[test]
fn metadata_raw_round_trip() {
    let bytes = Metadata::Raw.encode();
    assert_eq!(bytes, vec![2]);
    assert_eq!(Metadata::decode(&bytes).expect("decode"), Metadata::Raw);
}

#[test]
fn actor_handle_round_trip() {
    let bytes = Metadata::ActorHandle.encode();
    assert_eq!(bytes, vec![3]);
    assert_eq!(Metadata::decode(&bytes).expect("decode"), Metadata::ActorHandle);
}

#[test]
fn error_round_trip() {
    let m = Metadata::Error { category: ErrorCategory::TaskException, raw_code: 0x1234 };
    let bytes = m.encode();
    assert_eq!(bytes.len(), 4);
    assert_eq!(Metadata::decode(&bytes).expect("decode"), m);
    assert_eq!(bytes, vec![16, 1, 0x34, 0x12]);
}

#[test]
fn decode_empty_fails() {
    assert_eq!(Metadata::decode(&[]), Err(MetadataDecodeError::Empty));
}

#[test]
fn decode_unknown_discriminator() {
    assert_eq!(Metadata::decode(&[99]), Err(MetadataDecodeError::UnknownDiscriminator(99)));
}

#[test]
fn decode_truncated_error() {
    assert_eq!(
        Metadata::decode(&[16, 1]),
        Err(MetadataDecodeError::Truncated { expected: 4, got: 2 })
    );
}

#[test]
fn decode_rejects_unknown_category_and_ignores_what_follows() {
    assert_eq!(
        Metadata::decode(&[16, 12, 0, 0]),
        Err(MetadataDecodeError::UnknownErrorCategory(12))
    );
    assert_eq!(Metadata::decode(&[2, 9, 9]), Ok(Metadata::Raw));
    assert_eq!(Metadata::decode(&[1]), Err(MetadataDecodeError::Truncated { expected: 2, got: 1 }));
    assert_eq!(Metadata::decode(&[1, 7]), Ok(Metadata::Pickle5 { has_nested_refs: true }));
}

#[test]
fn metadata_errors_have_texts() {
    assert_eq!(MetadataDecodeError::Empty.text(), "metadata buffer is empty");
    assert_eq!(
        MetadataDecodeError::UnknownDiscriminator(99).text(),
        "unknown metadata discriminator: 99"
    );
    assert_eq!(
        MetadataDecodeError::Truncated { expected: 4, got: 2 }.text(),
        "metadata buffer truncated: needed 4 bytes, got 2"
    );
    assert_eq!(
        MetadataDecodeError::UnknownErrorCategory(0).text(),
        "unknown error category byte: 0"
    );
}

#[test]
fn every_category_has_its_byte() {
    for b in 1..=11u8 {
        assert_eq!(ErrorCategory::from_byte(b).expect("known").as_byte(), b);
    }
    assert_eq!(ErrorCategory::from_byte(0), Err(MetadataDecodeError::UnknownErrorCategory(0)));
}

#[test]
fn ref_state_helpers() {
    assert!(RefState::ReadyLocal.is_ready());
    assert!(RefState::Failed.is_ready());
    assert!(RefState::Failed.is_failed());
    assert!(!RefState::Pending.is_ready());
}

#[test]
fn ref_carries_owner() {
    let object = ObjectId::for_return(&TaskId::random(), 0);
    let owner = Address::new("10.0.0.1", 60123, WorkerId::random());
    let r = ObjectRef::new(object, owner.clone());
    assert_eq!(r.object_id(), &object);
    assert_eq!(r.owner(), &owner);
}

#[test]
fn unresolved_address() {
    let owner = Address::new("placeholder", 0, WorkerId::nil());
    assert!(!owner.is_resolved());
}

#[test]
fn references_have_texts() {
    let owner = Address::new("h", 60123, WorkerId::from_bytes([0x11; 16]));
    assert_eq!(owner.text(), format!("h:60123@{}", "11".repeat(16)));
    assert!(owner.is_resolved());
    let r = ObjectRef::new(ObjectId::nil(), owner).with_owner_node_id([3u8; 16]);
    assert_eq!(
        r.text(),
        format!("ObjectRef({} owned-by h:60123@{})", "00".repeat(28), "11".repeat(16))
    );
    assert_eq!(r.owner_node_id(), Some([3u8; 16]));
    assert_eq!(r.clone(), r);
}

#[test]
fn builder_round_trip() {
    let info = ErrorInfo::new(ErrorCategory::TaskException, "boom")
        .with_traceback("Traceback (most recent call last)\n  ...")
        .with_raw_code(3);
    assert_eq!(info.category, ErrorCategory::TaskException);
    assert_eq!(info.message, "boom");
    assert!(info.traceback.is_some());
    assert_eq!(info.raw_code, 3);
    assert_eq!(ErrorInfo::new(ErrorCategory::OwnerDied, "").raw_code, RAW_CODE_UNSPECIFIED);
}

#[test]
fn no_proper_prefix_of_a_payload_decodes() {
    let full = ErrorPayload::new("grüße")
        .with_traceback("tb")
        .with_raw_code(7)
        .with_pickled_exception(vec![1, 2, 3]);
    for payload in [ErrorPayload::new("boom"), full] {
        let encoded = payload.encode();
        assert!(ErrorPayload::decode(&encoded).is_ok());
        for n in 0..encoded.len() {
            let e = ErrorPayload::decode(&encoded[..n]).unwrap_err();
            assert!(
                matches!(
                    e,
                    ErrorPayloadCodecError::Truncated { .. }
                        | ErrorPayloadCodecError::LengthOverflow { .. }
                ),
                "{n}: {e:?}"
            );
        }
    }
}

#[test]
fn round_trip_minimal() {
    let p = ErrorPayload::new("boom");
    let encoded = p.encode();
    let decoded = ErrorPayload::decode(&encoded).expect("decode");
    assert_eq!(decoded, p);
    assert_eq!(encoded, b"\x04\0\0\0boom\0\0\0\0");
}

#[test]
fn round_trip_full() {
    let p = ErrorPayload::new("user error")
        .with_traceback("Traceback...\n  ...")
        .with_raw_code(3)
        .with_pickled_exception(b"\x80\x05pickled".to_vec());
    let encoded = p.encode();
    let decoded = ErrorPayload::decode(&encoded).expect("decode");
    assert_eq!(decoded, p);
}

#[test]
fn truncated_input_errors() {
    assert!(matches!(
        ErrorPayload::decode(&[]),
        Err(ErrorPayloadCodecError::Truncated { .. })
    ));
    assert!(matches!(
        ErrorPayload::decode(&[1, 0, 0, 0]),
        Err(ErrorPayloadCodecError::LengthOverflow { .. })
    ));
    assert_eq!(
        ErrorPayload::decode(&[1, 0]),
        Err(ErrorPayloadCodecError::Truncated { needed: 2 })
    );
    assert_eq!(
        ErrorPayload::decode(&[9, 0, 0, 0, 65]),
        Err(ErrorPayloadCodecError::LengthOverflow { claimed: 9, remaining: 1 })
    );
}

#[test]
fn invalid_flag_errors() {
    let bad = {
        let mut p = ErrorPayload::new("x").encode().to_vec();
        // The first flag stands right behind the message (4 + 1 = 5).
        p[5] = 7;
        p
    };
    assert!(matches!(
        ErrorPayload::decode(&bad),
        Err(ErrorPayloadCodecError::InvalidFlag(7))
    ));
}

#[test]
fn message_carries_through() {
    let p = ErrorPayload::new("こんにちは");
    let decoded = ErrorPayload::decode(&p.encode()).expect("decode");
    assert_eq!(decoded.message, "こんにちは");
}

#[test]
fn invalid_utf8_message_is_rejected() {
    assert_eq!(
        ErrorPayload::decode(&[1, 0, 0, 0, 0xFF, 0, 0, 0, 0]),
        Err(ErrorPayloadCodecError::InvalidUtf8)
    );
}

#[test]
fn ray_object_raw_round_trip() {
    let obj = RayObject::new(Metadata::Raw, b"hello".to_vec());
    assert!(!obj.is_error());
    assert_eq!(obj.size_bytes(), 1 + 5);
}

#[test]
fn error_object() {
    let obj = RayObject::new(
        Metadata::Error { category: ErrorCategory::TaskException, raw_code: 3 },
        b"err-payload".to_vec(),
    );
    assert!(obj.is_error());
    assert_eq!(obj.metadata.error_category(), Some(ErrorCategory::TaskException));
    assert_eq!(Metadata::Raw.error_category(), None);
}

#[test]
fn rejected_texts_say_why() {
    let e = ObjectId::from_hex("00").unwrap_err();
    assert_eq!(e.text(), "expected 28 bytes, got 1");
    let e = ObjectId::from_hex("0").unwrap_err();
    assert_eq!(e.text(), "Odd number of digits");
    let e = ObjectId::from_hex("00\n0").unwrap_err();
    assert_eq!(e.text(), "Invalid character '\\n' at position 2");
    let e = JobId::from_hex("'0").unwrap_err();
    assert_eq!(e.text(), "Invalid character '\\'' at position 0");
}
