use openhcl_boot::arch::try_write_error_info_page;
use openhcl_boot::arch::HV_PAGE_SIZE;
use openhcl_boot::hcl::HclErrorInformationPage;
use openhcl_boot::hcl::HCL_ERROR_PAGE_DATA_VERSION_1;
use openhcl_boot::hcl::HCL_TRIPLEFAULT_SIGNATURE;
use openhcl_boot::host_params::IsolationType;
use openhcl_boot::message_writer::MessageWriter;

fn crash(fragments: &[&str]) -> [u8; HV_PAGE_SIZE] {
    let mut page = [0xAA; HV_PAGE_SIZE];
    assert!(try_write_error_info_page(
        IsolationType::Snp,
        &mut page,
        fragments
    ));
    page
}

fn surfaced(page: &[u8]) -> Vec<u8> {
    let info = HclErrorInformationPage::read_from_bytes(&page[..312]).unwrap();
    assert_eq!(info.signature, HCL_TRIPLEFAULT_SIGNATURE);
    info.data
        .message
        .iter()
        .copied()
        .take_while(|&byte| byte != 0)
        .collect()
}

#[test]
fn crash_page_layout() {
    let page = crash(&["panicked at ", "src/main.rs:1:2", ":\n", "boom"]);
    let text = b"panicked at src/main.rs:1:2:\nboom";
    assert_eq!(page[0..40], [0; 40]);
    assert_eq!(page[40..48], HCL_TRIPLEFAULT_SIGNATURE.to_le_bytes());
    assert_eq!(page[48..52], HCL_ERROR_PAGE_DATA_VERSION_1.to_le_bytes());
    assert_eq!(page[52..52 + text.len()], *text);
    assert!(page[52 + text.len()..].iter().all(|&byte| byte == 0));
}

#[test]
fn crash_text_is_surfaced() {
    assert_eq!(surfaced(&crash(&["a", "", "bc"])), b"abc");
    assert_eq!(surfaced(&crash(&[])), b"");
    assert_eq!(surfaced(&crash(&["ab\0cd"])), b"ab");
}

#[test]
fn isolation_type_makes_no_difference() {
    let mut page = [1; HV_PAGE_SIZE];
    assert!(try_write_error_info_page(
        IsolationType::NotIsolated,
        &mut page,
        &["x"]
    ));
    assert_eq!(page, crash(&["x"]));
}

#[test]
fn long_messages_are_cut_and_terminated() {
    let long = "0123456789".repeat(30);
    let page = crash(&[&long]);
    assert_eq!(surfaced(&page), long.as_bytes()[..255]);
    assert_eq!(page[52 + 255], 0);

    let exact = "y".repeat(255);
    assert_eq!(surfaced(&crash(&[&exact])), exact.as_bytes());
    assert_eq!(surfaced(&crash(&[&exact, "z"])), exact.as_bytes());
    assert_eq!(surfaced(&crash(&[&exact[..254], "zw"]))[254], b'z');
}

#[test]
fn pieces_make_no_difference() {
    let text = "the quick brown fox ".repeat(20);
    let whole = crash(&[&text]);
    for piece in [1, 7, 100, 255, 256] {
        let pieces: Vec<&str> = (0..text.len())
            .step_by(piece)
            .map(|i| &text[i..(i + piece).min(text.len())])
            .collect();
        assert_eq!(crash(&pieces), whole);
    }
}

#[test]
fn message_is_ascii() {
    let page = crash(&["panicked at a.rs:1:1:\n", "\u{e9}", "!"]);
    assert_eq!(surfaced(&page), b"panicked at a.rs:1:1:\n??!");
    assert!(page[52..308].iter().all(|byte| byte.is_ascii()));

    let page = crash(&[&"\u{20ac}".repeat(100)]);
    assert_eq!(surfaced(&page), [b'?'; 255]);
}

#[test]
fn non_ascii_text_is_cut_at_the_same_length() {
    let text = format!("{}\u{e9}", "a".repeat(254));
    let page = crash(&[&text]);
    assert_eq!(surfaced(&page), format!("{}?", "a".repeat(254)).as_bytes());
}

#[test]
fn ascii_text_is_kept() {
    let text: String = (1..128u8).map(char::from).collect();
    assert_eq!(surfaced(&crash(&[&text])), text.as_bytes());
}

#[test]
fn message_writer_message() {
    let mut writer = MessageWriter::new();
    assert_eq!(writer.message(), [0; 256]);
    writer.write_str("he");
    writer.write_str("llo");
    assert_eq!(writer.message()[..5], *b"hello");
    assert_eq!(writer.message()[5..], [0; 251]);
    writer.write_str(&"x".repeat(1000));
    assert_eq!(writer.message()[254], b'x');
    assert_eq!(writer.message()[255], 0);
}
