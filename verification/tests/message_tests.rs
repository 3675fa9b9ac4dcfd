use zeus::kinds::{CustomMsg, GameMessage};
use zeus::message::{header_size, Message, MessageError, MessageHeader};
use zeus::pod::Pod;

#[derive(Clone, Copy, Debug)]
struct F2 {
    x: f32,
    y: f32,
}

#[derive(Clone, Copy, Debug)]
struct Complex {
    a: u32,
    b: bool,
    c: f32,
    d: [F2; 2],
}

fn push_f32(message: &mut Message<CustomMsg>, v: f32) {
    message.push(v.to_bits());
}

fn pull_f32(message: &mut Message<CustomMsg>) -> Result<f32, MessageError> {
    message.pull::<u32>().map(f32::from_bits)
}

fn push_f2(message: &mut Message<CustomMsg>, v: F2) {
    push_f32(message, v.x);
    push_f32(message, v.y);
}

fn pull_f2(message: &mut Message<CustomMsg>) -> Result<F2, MessageError> {
    let y = pull_f32(message)?;
    let x = pull_f32(message)?;
    Ok(F2 { x, y })
}

fn push_complex(message: &mut Message<CustomMsg>, v: Complex) {
    message.push(v.a);
    message.push(v.b);
    push_f32(message, v.c);
    push_f2(message, v.d[0]);
    push_f2(message, v.d[1]);
}

fn pull_complex(message: &mut Message<CustomMsg>) -> Result<Complex, MessageError> {
    let d1 = pull_f2(message)?;
    let d0 = pull_f2(message)?;
    let c = pull_f32(message)?;
    let b = message.pull::<bool>()?;
    let a = message.pull::<u32>()?;
    Ok(Complex { a, b, c, d: [d0, d1] })
}

#[test]
fn messages() -> Result<(), MessageError> {
    let id = CustomMsg::Interact(23);
    let mut message = Message::new(id);

    let a: u32 = 2;
    let b = true;
    let c: f32 = 3.14159;
    println!("a; {:?}", a);
    println!("b: {:?}", b);
    println!("c: {:?}", c);

    let d = [F2 { x: 1., y: 2. }, F2 { x: 1.243, y: -1234.1 }];

    println!("d: {:?}", d);

    println!("{:?}", message);
    message.push(a);
    println!("{:?}", message);
    message.push(b);
    println!("{:?}", message);
    push_f32(&mut message, c);
    println!("{:?}", message);
    push_f2(&mut message, d[0]);
    push_f2(&mut message, d[1]);
    println!("{:?}", message);

    let out_d1 = pull_f2(&mut message)?;
    let out_d0 = pull_f2(&mut message)?;
    let out_d = [out_d0, out_d1];
    let out_c: f32 = pull_f32(&mut message)?;
    println!("{:?}", message);
    let out_b: bool = message.pull()?;
    println!("{:?}", message);
    let out_a: u32 = message.pull()?;
    println!("{:?}", message);
    println!("out_a; {:?}", out_a);
    println!("out_b: {:?}", out_b);
    println!("out_c: {:?}", out_c);
    println!("out_d: {:?}", out_d);

    assert_eq!(a, out_a);
    assert_eq!(b, out_b);
    assert_eq!(c, out_c);

    let complex = Complex { a, b, c, d };
    println!("complex: {:#?}", complex);
    push_complex(&mut message, complex);
    println!("{:?}", message);
    let out_complex = pull_complex(&mut message)?;
    println!("{:?}", message);
    println!("out_complex: {:#?}", out_complex);
    assert_eq!(complex.a, out_complex.a);
    assert_eq!(complex.b, out_complex.b);
    assert_eq!(complex.c, out_complex.c);
    Ok(())
}

#[test]
fn new_message_records_header_size() {
    let message = Message::new(CustomMsg::Ping);
    let h = std::mem::size_of::<MessageHeader<CustomMsg>>();
    assert_eq!(header_size::<CustomMsg>(), h);
    assert_eq!(message.header.size, h as u32);
    assert_eq!(message.size(), h as u32);
    assert!(message.body.is_empty());

    let message = Message::new(GameMessage::SyncWorld);
    assert_eq!(
        message.header.size,
        std::mem::size_of::<MessageHeader<GameMessage>>() as u32
    );
}

#[test]
fn push_appends_memory_images_and_updates_size() {
    let h = std::mem::size_of::<MessageHeader<GameMessage>>() as u32;
    let mut message = Message::new(GameMessage::Ping);
    message.push(0x0102_0304u32);
    assert_eq!(message.body, 0x0102_0304u32.to_ne_bytes().to_vec());
    assert_eq!(message.header.size, h + 4);
    message.push(true);
    message.push(0xabcdu16);
    let mut expected = 0x0102_0304u32.to_ne_bytes().to_vec();
    expected.push(1);
    expected.extend_from_slice(&0xabcdu16.to_ne_bytes());
    assert_eq!(message.body, expected);
    assert_eq!(message.header.size, h + 7);
    assert_eq!(message.size(), h + 7);
}

#[test]
fn pull_returns_values_in_reverse_order() {
    let mut message = Message::new(GameMessage::GetId);
    message.push(7usize);
    message.push(255u8);
    message.push(u64::MAX);
    assert_eq!(message.body.len(), std::mem::size_of::<usize>() + 1 + 8);
    assert_eq!(message.pull::<u64>(), Ok(u64::MAX));
    assert_eq!(message.pull::<u8>(), Ok(255));
    assert_eq!(message.pull::<usize>(), Ok(7));
    assert!(message.body.is_empty());
    assert_eq!(
        message.header.size,
        std::mem::size_of::<MessageHeader<GameMessage>>() as u32
    );
}

#[test]
fn pull_from_short_body_reports_sizes_and_changes_nothing() {
    let h = std::mem::size_of::<MessageHeader<GameMessage>>() as u32;
    let mut message = Message::new(GameMessage::GetId);
    message.push(9u16);
    let before = message.body.clone();
    assert_eq!(
        message.pull::<u32>(),
        Err(MessageError::NotEnoughBytes { type_size: 4, remaining: 2 })
    );
    assert_eq!(message.body, before);
    assert_eq!(message.header.size, h + 2);
    assert_eq!(message.pull::<u16>(), Ok(9));
    assert_eq!(
        message.pull::<bool>(),
        Err(MessageError::NotEnoughBytes { type_size: 1, remaining: 0 })
    );
}

#[test]
fn custom_msg_takes_its_memory_size() {
    let mut message = Message::new(GameMessage::GetId);
    message.push(7u64);
    assert_eq!(
        message.pull::<CustomMsg>(),
        Err(MessageError::NotEnoughBytes {
            type_size: std::mem::size_of::<CustomMsg>(),
            remaining: 8
        })
    );
    message.push(CustomMsg::Interact(3));
    assert_eq!(message.body.len(), 8 + std::mem::size_of::<CustomMsg>());
    assert_eq!(message.pull::<CustomMsg>(), Ok(CustomMsg::Interact(3)));
}

#[test]
fn message_kinds_travel_in_messages() {
    let mut message = Message::new(GameMessage::Player);
    message.push(CustomMsg::MovePlayer(1234));
    message.push(GameMessage::Interact);
    message.push(CustomMsg::Ping);
    assert_eq!(message.pull::<CustomMsg>(), Ok(CustomMsg::Ping));
    assert_eq!(message.pull::<GameMessage>(), Ok(GameMessage::Interact));
    assert_eq!(message.pull::<CustomMsg>(), Ok(CustomMsg::MovePlayer(1234)));
}

#[test]
fn custom_msg_encoding() {
    let w = std::mem::size_of::<usize>();
    let s = std::mem::size_of::<CustomMsg>();
    let mut out = Vec::new();
    CustomMsg::Player(0x0201).encode(&mut out);
    let mut expected = vec![3u8];
    expected.resize(w, 0);
    expected.extend_from_slice(&0x0201usize.to_ne_bytes());
    expected.resize(s, 0);
    assert_eq!(out, expected);
    assert_eq!(CustomMsg::decode(&out), CustomMsg::Player(0x0201));
    let mut unknown = vec![9u8];
    unknown.resize(s, 5);
    assert_eq!(CustomMsg::decode(&unknown), CustomMsg::Ping);
    let mut out = Vec::new();
    GameMessage::MovePlayer.encode(&mut out);
    assert_eq!(out.len(), std::mem::size_of::<GameMessage>());
    assert_eq!(out[0], 4);
    assert_eq!(GameMessage::decode(&[1]), GameMessage::SyncWorld);
    assert_eq!(GameMessage::decode(&[200]), GameMessage::GetId);
}

#[test]
fn integer_encodings() {
    let mut out = Vec::new();
    0x1122_3344_5566_7788u64.encode(&mut out);
    assert_eq!(out, 0x1122_3344_5566_7788u64.to_ne_bytes().to_vec());
    assert_eq!(u64::decode(&out), 0x1122_3344_5566_7788);
    assert_eq!(u32::decode(&0x8000_00ffu32.to_ne_bytes()), 0x8000_00ff);
    let mut out = Vec::new();
    usize::MAX.encode(&mut out);
    assert_eq!(out, usize::MAX.to_ne_bytes().to_vec());
    assert!(bool::decode(&[7]));
    assert!(!bool::decode(&[0]));
}

#[test]
fn wire_bytes_round_trip() {
    let h = std::mem::size_of::<MessageHeader<CustomMsg>>();
    let k = std::mem::size_of::<CustomMsg>();
    let mut message = Message::new(CustomMsg::Interact(5));
    message.push(42u32);
    message.push(false);
    let size = message.header.size;
    assert_eq!(size as usize, h + 5);
    let body = message.body.clone();
    let bytes = message.into_bytes();
    assert_eq!(bytes.len(), h + 5);
    let mut id_bytes = Vec::new();
    CustomMsg::Interact(5).encode(&mut id_bytes);
    assert_eq!(&bytes[..k], &id_bytes[..]);
    let off = (k + 3) / 4 * 4;
    assert_eq!(&bytes[off..off + 4], &size.to_ne_bytes());
    assert!(bytes[off + 4..h].iter().all(|&b| b == 0));
    assert!(Message::<CustomMsg>::is_frame(&bytes));
    let header = MessageHeader::<CustomMsg>::from_bytes(&bytes);
    assert_eq!(header.id, CustomMsg::Interact(5));
    assert_eq!(header.size, size);
    let mut back = Message::<CustomMsg>::from_bytes(&bytes);
    assert_eq!(back.header.id, CustomMsg::Interact(5));
    assert_eq!(back.header.size, size);
    assert_eq!(back.body, body);
    assert_eq!(back.pull::<bool>(), Ok(false));
    assert_eq!(back.pull::<u32>(), Ok(42));
}

#[test]
fn frames_must_hold_their_size() {
    let h = std::mem::size_of::<MessageHeader<GameMessage>>();
    let frame = |kind: u8, size: u32, body: &[u8]| {
        let mut bytes = vec![kind];
        bytes.resize(4, 0);
        bytes.extend_from_slice(&size.to_ne_bytes());
        bytes.resize(h, 0);
        bytes.extend_from_slice(body);
        bytes
    };
    let short = frame(0, h as u32, &[]);
    assert!(!Message::<GameMessage>::is_frame(&short[..h - 1]));
    assert!(Message::<GameMessage>::is_frame(&frame(0, h as u32, &[])));
    assert!(!Message::<GameMessage>::is_frame(&frame(0, h as u32 + 1, &[])));
    let bytes = frame(2, h as u32 + 1, &[77]);
    assert!(Message::<GameMessage>::is_frame(&bytes));
    let message = Message::<GameMessage>::from_bytes(&bytes);
    assert_eq!(message.header.id, GameMessage::Ping);
    assert_eq!(message.header.size, h as u32 + 1);
    assert_eq!(message.body, vec![77]);
}
