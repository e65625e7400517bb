use program_scanner::Channel;
use program_scanner::Modulation;
use program_scanner::ScannerError;
use program_scanner::ParseError;
use program_scanner::uniden::ubc125xlt::Request;
use program_scanner::uniden::ubc125xlt::Session;
use program_scanner::uniden::ubc125xlt::SessionPhase;
use program_scanner::uniden::ubc125xlt::UBC125XLTError;
use program_scanner::uniden::ubc125xlt::confirm_write;
use program_scanner::uniden::ubc125xlt::strip_echo;
use program_scanner::ResponseAssembler;
use program_scanner::frame_command;

fn remote_session() -> Session {
    let mut session = Session::new();
    session.handle_enter_reply("OK").unwrap();
    session
}

#[test]
fn request_texts() {
    let mut session = Session::new();
    assert_eq!(session.request_text(&Request::EnterProgrammingMode), "PRG");
    session.handle_enter_reply("OK").unwrap();
    assert_eq!(session.request_text(&Request::Model), "MDL");
    assert_eq!(session.request_text(&Request::Version), "VER");
    assert_eq!(session.request_text(&Request::ExitProgrammingMode), "EPG");
    assert_eq!(session.request_text(&Request::DownloadChannel(5)), "CIN,5");
    let channel = Channel {
        id: 5,
        tag: "TESTTAG".to_string(),
        frequency: 1_462_000,
        modulation: Modulation::FrequencyModulation,
        delay: 2,
        locked: true,
        priority: false,
    };
    assert_eq!(
        session.request_text(&Request::UploadChannel(5, channel)),
        "CIN,5,TESTTAG         ,00014620,FM,0,2,1,0"
    );
}

#[test]
fn strip_echo_removes_prefix_and_trims() {
    assert_eq!(strip_echo("MDL,UBC125XLT\r"), "UBC125XLT");
    assert_eq!(strip_echo("PRG,OK\r"), "OK");
    assert_eq!(strip_echo("CIN,5,TESTTAG         ,00014620,FM,0,2,1,0\r"),
        "5,TESTTAG         ,00014620,FM,0,2,1,0");
}

#[test]
fn download_reply_yields_channel_with_requested_id() {
    let session = remote_session();
    let stripped = strip_echo("CIN,5,TESTTAG         ,00014620,FM,0,2,1,0\r");
    let channel = session.handle_download_reply(5, &stripped).unwrap();
    assert_eq!(channel.id, 5);
    assert_eq!(channel.tag, "TESTTAG");
    assert_eq!(channel.frequency, 1_462_000);
    assert_eq!(channel.modulation, Modulation::FrequencyModulation);
    assert_eq!(channel.delay, 2);
    assert!(channel.locked);
    assert!(!channel.priority);
}

#[test]
fn download_reply_reports_field_errors() {
    let session = remote_session();
    let r = session.handle_download_reply(5, "5,TESTTAG         ,junk,FM,0,2,1,0");
    assert_eq!(r.unwrap_err(), ScannerError::Field(ParseError::Frequency));
}

#[test]
fn enter_reply_not_ok_is_distinct_enter_error() {
    let mut session = Session::new();
    let r = session.handle_enter_reply("ERR");
    assert_eq!(r.unwrap_err(), UBC125XLTError::ProgrammingEnterError);
    assert_eq!(session.phase(), SessionPhase::Claimed);
}

#[test]
fn upload_rejection_leaves_session_usable() {
    let mut session = remote_session();
    let stripped = strip_echo("CIN,5,ERR\r");
    let r = session.handle_upload_reply(&stripped);
    assert_eq!(r.unwrap_err(), UBC125XLTError::UploadError);
    assert_eq!(session.phase(), SessionPhase::RemoteMode);
    // The session still serves requests after the failed upload.
    assert_eq!(session.request_text(&Request::DownloadChannel(6)), "CIN,6");
    assert!(session.handle_upload_reply("OK").is_ok());
    assert!(session.handle_exit_reply("OK").is_ok());
    assert_eq!(session.phase(), SessionPhase::Closed);
}

#[test]
fn exit_reply_closes_session_either_way() {
    let mut session = remote_session();
    let r = session.handle_exit_reply("ERR");
    assert_eq!(r.unwrap_err(), UBC125XLTError::ProgrammingExitError);
    assert_eq!(session.phase(), SessionPhase::Closed);

    let mut session = remote_session();
    assert!(session.handle_exit_reply("OK").is_ok());
    assert_eq!(session.phase(), SessionPhase::Closed);
}

#[test]
fn exit_is_valid_before_remote_mode() {
    // A failed mode entry still gets the one exit attempt on teardown.
    let mut session = Session::new();
    session.handle_enter_reply("ERR").unwrap_err();
    assert_eq!(session.request_text(&Request::ExitProgrammingMode), "EPG");
    assert!(session.handle_exit_reply("OK").is_ok());
}

#[test]
fn whole_download_exchange() {
    let mut session = Session::new();
    assert_eq!(frame_command(&session.request_text(&Request::EnterProgrammingMode)),
        b"PRG\r".to_vec());
    session.handle_enter_reply(&strip_echo("PRG,OK\r")).unwrap();

    assert_eq!(frame_command(&session.request_text(&Request::DownloadChannel(5))),
        b"CIN,5\r".to_vec());
    // The device's reply arrives in two bulk chunks.
    let mut assembler = ResponseAssembler::new();
    assembler.push_chunk(b"CIN,5,TESTTAG         ,000");
    assert!(!assembler.is_complete());
    assembler.push_chunk(b"14620,FM,0,2,1,0\r");
    assert!(assembler.is_complete());
    let response = assembler.finish().unwrap();
    let channel = session
        .handle_download_reply(5, &strip_echo(&response))
        .unwrap();
    assert_eq!(channel.id, 5);
    assert_eq!(channel.tag, "TESTTAG");
    assert_eq!(channel.frequency, 1_462_000);

    session.handle_exit_reply(&strip_echo("EPG,OK\r")).unwrap();
    assert_eq!(session.phase(), SessionPhase::Closed);
}

#[test]
fn capacity_of_this_model() {
    let session = remote_session();
    assert_eq!(session.number_of_channels(), 500);
}

#[test]
fn short_write_is_write_error() {
    assert!(confirm_write(4, 4).is_ok());
    assert_eq!(confirm_write(3, 4).unwrap_err(), UBC125XLTError::WriteError);
}

#[test]
fn protocol_error_messages() {
    assert_eq!(
        UBC125XLTError::ProgrammingEnterError.message(),
        "Could not enter Programming Mode"
    );
    assert_eq!(
        UBC125XLTError::ProgrammingExitError.message(),
        "Could not leave Programming Mode"
    );
    assert_eq!(UBC125XLTError::UploadError.message(), "Could not upload channel data");
    assert_eq!(UBC125XLTError::WriteError.message(), "Could not write to device");
}
