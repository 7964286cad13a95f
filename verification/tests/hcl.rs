use openhcl_boot::hcl::HclErrorInformationPage;
use openhcl_boot::hcl::HclErrorPageData;
use openhcl_boot::hcl::HCL_ERROR_INFORMATION_PAGE_SIZE;
use openhcl_boot::hcl::HCL_ERROR_INFORMATION_STRING_SIZE;
use openhcl_boot::hcl::HCL_ERROR_PAGE_DATA_SIZE;
use openhcl_boot::hcl::HCL_ERROR_PAGE_DATA_VERSION_1;
use openhcl_boot::hcl::HCL_ERROR_RANGE_PAGE_COUNT;
use openhcl_boot::hcl::HCL_TRIPLEFAULT_SIGNATURE;

fn sample() -> HclErrorInformationPage {
    let mut message = [0; HCL_ERROR_INFORMATION_STRING_SIZE];
    for (i, byte) in message.iter_mut().enumerate() {
        *byte = (i * 7 + 1) as u8;
    }
    HclErrorInformationPage {
        stop_code: 0x0102030405060708,
        parameter1: 0x1112131415161718,
        parameter2: 0x2122232425262728,
        parameter3: 0x3132333435363738,
        parameter4: u64::MAX,
        signature: HCL_TRIPLEFAULT_SIGNATURE,
        data: HclErrorPageData {
            version: 0xA1B2C3D4,
            message,
        },
        _reserved: [9, 8, 7, 6],
    }
}

#[test]
fn constants() {
    assert_eq!(HCL_TRIPLEFAULT_SIGNATURE.to_be_bytes(), *b"HCLFAULT");
    assert_eq!(HCL_ERROR_PAGE_DATA_VERSION_1 >> 8, 1);
    assert_eq!(HCL_ERROR_PAGE_DATA_VERSION_1 & 0xff, 0);
    assert_eq!(HCL_ERROR_RANGE_PAGE_COUNT, 2);
    assert_eq!(HCL_ERROR_INFORMATION_STRING_SIZE, 256);
    assert_eq!(HCL_ERROR_PAGE_DATA_SIZE, 260);
    assert_eq!(HCL_ERROR_INFORMATION_PAGE_SIZE, 312);
}

#[test]
fn fields_lie_in_order_little_endian() {
    let page = sample();
    let bytes = page.as_bytes();
    assert_eq!(bytes.len(), 312);
    assert_eq!(bytes[0..8], [8, 7, 6, 5, 4, 3, 2, 1]);
    assert_eq!(bytes[8..16], 0x1112131415161718u64.to_le_bytes());
    assert_eq!(bytes[16..24], 0x2122232425262728u64.to_le_bytes());
    assert_eq!(bytes[24..32], 0x3132333435363738u64.to_le_bytes());
    assert_eq!(bytes[32..40], [255; 8]);
    assert_eq!(bytes[40..48], *b"TLUAFLCH");
    assert_eq!(bytes[48..52], [0xD4, 0xC3, 0xB2, 0xA1]);
    assert_eq!(bytes[52..308], page.data.message);
    assert_eq!(bytes[308..312], [9, 8, 7, 6]);
}

#[test]
fn data_portion_bytes() {
    let data = sample().data;
    let bytes = data.as_bytes();
    assert_eq!(bytes.len(), 260);
    assert_eq!(bytes[0..4], [0xD4, 0xC3, 0xB2, 0xA1]);
    assert_eq!(bytes[4..260], data.message);
}

#[test]
fn read_gives_back_write() {
    let page = sample();
    let read = HclErrorInformationPage::read_from_bytes(&page.as_bytes()).unwrap();
    assert_eq!(read.stop_code, page.stop_code);
    assert_eq!(read.parameter1, page.parameter1);
    assert_eq!(read.parameter2, page.parameter2);
    assert_eq!(read.parameter3, page.parameter3);
    assert_eq!(read.parameter4, page.parameter4);
    assert_eq!(read.signature, page.signature);
    assert_eq!(read.data.version, page.data.version);
    assert_eq!(read.data.message, page.data.message);
    assert_eq!(read._reserved, page._reserved);

    let data = HclErrorPageData::read_from_bytes(&page.data.as_bytes()).unwrap();
    assert_eq!(data.version, page.data.version);
    assert_eq!(data.message, page.data.message);
}

#[test]
fn write_gives_back_read() {
    let bytes: Vec<u8> = (0..312).map(|i| (i * 31 + 5) as u8).collect();
    let page = HclErrorInformationPage::read_from_bytes(&bytes).unwrap();
    assert_eq!(page.as_bytes(), bytes);
    let data = HclErrorPageData::read_from_bytes(&bytes[..260]).unwrap();
    assert_eq!(data.as_bytes(), bytes[..260]);
}

#[test]
fn read_wants_the_exact_size() {
    let bytes = [0; 400];
    for len in [0, 259, 261, 311, 313, 400] {
        assert!(HclErrorInformationPage::read_from_bytes(&bytes[..len]).is_none());
    }
    for len in [0, 259, 261, 312] {
        assert!(HclErrorPageData::read_from_bytes(&bytes[..len]).is_none());
    }
    assert!(HclErrorInformationPage::read_from_bytes(&bytes[..312]).is_some());
    assert!(HclErrorPageData::read_from_bytes(&bytes[..260]).is_some());
}
