use libsox::status::SoxErrorT;

const ALL: [SoxErrorT; 8] = [
    SoxErrorT::Success,
    SoxErrorT::EndOfFile,
    SoxErrorT::InvalidAudioHeader,
    SoxErrorT::UnsupportedDataFormat,
    SoxErrorT::CannotAllocMemory,
    SoxErrorT::OperationNotPermitted,
    SoxErrorT::OperationNotSupported,
    SoxErrorT::InvalidArgument,
];

#[test]
fn codes_are_those_of_the_engine() {
    assert_eq!(SoxErrorT::Success.code(), 0);
    assert_eq!(SoxErrorT::EndOfFile.code(), -1);
    assert_eq!(SoxErrorT::InvalidAudioHeader.code(), 2000);
    assert_eq!(SoxErrorT::UnsupportedDataFormat.code(), 2001);
    assert_eq!(SoxErrorT::CannotAllocMemory.code(), 2002);
    assert_eq!(SoxErrorT::OperationNotPermitted.code(), 2003);
    assert_eq!(SoxErrorT::OperationNotSupported.code(), 2004);
    assert_eq!(SoxErrorT::InvalidArgument.code(), 2005);
}

#[test]
fn a_status_is_found_again_from_its_code() {
    for status in ALL {
        assert_eq!(SoxErrorT::from_code(status.code()), Some(status));
    }
}

#[test]
fn no_two_statuses_share_a_code() {
    for (i, a) in ALL.iter().enumerate() {
        for (j, b) in ALL.iter().enumerate() {
            assert_eq!(a.code() == b.code(), i == j);
        }
    }
}

#[test]
fn other_numbers_stand_for_no_status() {
    for code in [-2, 1, 1999, 2006, i32::MIN, i32::MAX] {
        assert_eq!(SoxErrorT::from_code(code), None);
    }
}

#[test]
fn success_and_end_of_file_are_no_failures() {
    assert!(!SoxErrorT::Success.is_failure());
    assert!(!SoxErrorT::EndOfFile.is_failure());
    for status in &ALL[2..] {
        assert!(status.is_failure());
    }
}

#[test]
fn the_crate_root_names_the_status() {
    let status: libsox::SoxErrorT = SoxErrorT::Success;
    assert_eq!(status, libsox::SoxErrorT::Success);
}
