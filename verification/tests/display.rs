use proto::display::{Device, DrawableFrame};
use proto::frame::Frame;
use proto::session::DeviceHandle;

#[test]
fn drawable_frame_caches_crc_and_length() {
    let frame = Frame {
        sender: 133,
        receiver: 20,
        data: Vec::new(),
    };
    let drawable = DrawableFrame::from(frame.clone());
    assert_eq!(*drawable.frame(), frame);
    assert_eq!(drawable.crc32(), Some(0xdb924cb8));
    assert_eq!(drawable.frame_length(), Some(10));

    let too_long = Frame {
        sender: 1,
        receiver: 2,
        data: vec![0; 65536],
    };
    let drawable = DrawableFrame::from(too_long);
    assert_eq!(drawable.crc32(), None);
    assert_eq!(drawable.frame_length(), None);
}

#[test]
fn format_crc32_pads_to_eight_hex_digits() {
    assert_eq!(DrawableFrame::format_crc32(Some(0xdb924cb8)), "db924cb8");
    assert_eq!(DrawableFrame::format_crc32(Some(0x1a)), "0000001a");
    assert_eq!(DrawableFrame::format_crc32(Some(0)), "00000000");
    assert_eq!(DrawableFrame::format_crc32(None), "        ");
}

#[test]
fn format_length_left_aligns_to_four() {
    assert_eq!(DrawableFrame::format_length(Some(0)), "0   ");
    assert_eq!(DrawableFrame::format_length(Some(42)), "42  ");
    assert_eq!(DrawableFrame::format_length(Some(999)), "999 ");
    assert_eq!(DrawableFrame::format_length(Some(12345)), "12345");
    assert_eq!(DrawableFrame::format_length(None), "    ");
}

#[test]
fn format_name_fits_the_field() {
    assert_eq!(DrawableFrame::format_name("ab", 5), "ab   ");
    assert_eq!(DrawableFrame::format_name("hello", 5), "hello");
    assert_eq!(DrawableFrame::format_name("hello world", 5), "hel..");
    // The field is never narrower than three characters.
    assert_eq!(DrawableFrame::format_name("hello", 1), "h..");
    assert_eq!(DrawableFrame::format_name("", 0), "   ");
}

#[test]
fn device_stores_are_append_only() {
    let mut device = Device {
        name: "dev0".to_string(),
        cmd_input: String::new(),
        handle: DeviceHandle(0),
        received: Vec::new(),
        sent: Vec::new(),
    };

    let frame = Frame {
        sender: 1,
        receiver: 2,
        data: b"x".to_vec(),
    };
    device.push_received(DrawableFrame::from(frame.clone()));
    device.push_sent(DrawableFrame::from(frame.clone()));
    device.push_received(DrawableFrame::from(frame.clone()));
    assert_eq!(device.received.len(), 2);
    assert_eq!(device.sent.len(), 1);
    assert_eq!(*device.received[1].frame(), frame);
    assert_eq!(*device.sent[0].frame(), frame);
}
