use motor_core::bridge::{LineBuffer, CAPACITY};
use motor_core::protocol::message::Message;

fn fill(buffer: &mut LineBuffer, bytes: &[u8]) -> usize {
    let mut taken = 0;
    for byte in bytes.iter() {
        if !buffer.push(*byte) {
            break;
        }
        taken += 1;
    }
    taken
}

#[test]
fn a_new_buffer_is_empty() {
    let mut buffer = LineBuffer::new();
    assert_eq!(buffer.len(), 0);
    assert!(buffer.take_message().is_none());
}

#[test]
fn a_line_comes_out_as_its_command() {
    let mut buffer = LineBuffer::new();
    assert_eq!(fill(&mut buffer, b"STEPS:-25,"), 10);
    assert_eq!(buffer.len(), 10);
    assert!(matches!(buffer.take_message(), Some(Message::StepperMotorRunSteps(-25))));
    assert_eq!(buffer.len(), 0);
}

#[test]
fn bytes_are_kept_in_the_order_they_came() {
    let mut buffer = LineBuffer::new();
    fill(&mut buffer, b"ANGLE:12.5,");
    match buffer.take_message() {
        Some(Message::ServoAngle(angle)) => assert_eq!(angle.as_str(), "12.5"),
        _ => panic!("no angle"),
    }
}

#[test]
fn taking_the_message_empties_the_buffer_whatever_came() {
    let mut buffer = LineBuffer::new();
    fill(&mut buffer, b"STO:,");
    assert!(buffer.take_message().is_none());
    assert_eq!(buffer.len(), 0);
    fill(&mut buffer, b"STOP:,");
    assert!(matches!(buffer.take_message(), Some(Message::StepperStop)));
    assert!(buffer.take_message().is_none());
}

#[test]
fn a_full_buffer_refuses_the_byte() {
    let mut buffer = LineBuffer::new();
    assert_eq!(CAPACITY, 16);
    assert_eq!(fill(&mut buffer, b"STEPS:1234567890,"), 16);
    assert_eq!(buffer.len(), 16);
    assert!(!buffer.push(b','));
    assert_eq!(buffer.len(), 16);
    assert!(buffer.take_message().is_none());
    assert!(buffer.push(b'S'));
    assert_eq!(buffer.len(), 1);
}

#[test]
fn a_line_of_exactly_the_capacity_fits() {
    let mut buffer = LineBuffer::new();
    assert_eq!(fill(&mut buffer, b"STEPS:123456789,"), 16);
    assert!(matches!(buffer.take_message(), Some(Message::StepperMotorRunSteps(123456789))));
}

#[test]
fn bytes_that_are_no_text_give_no_command() {
    let mut buffer = LineBuffer::new();
    fill(&mut buffer, &[b'S', b'T', b'O', b'P', b':', 0xff, b',']);
    assert!(buffer.take_message().is_none());
    assert_eq!(buffer.len(), 0);
    fill(&mut buffer, &[b'S', b'T', b'O', b'P', b':', 0xc3, 0xa9, b',']);
    assert!(matches!(buffer.take_message(), Some(Message::StepperStop)));
}

#[test]
fn what_follows_the_terminator_is_ignored() {
    let mut buffer = LineBuffer::new();
    fill(&mut buffer, b"STOP:,STEPS:1,");
    assert!(matches!(buffer.take_message(), Some(Message::StepperStop)));
    assert!(buffer.take_message().is_none());
}

#[test]
fn a_long_line_is_cut_to_the_capacity() {
    let mut buffer = LineBuffer::new();
    let line = b"STEPS:1,234567890123456789";
    let mut accepted = 0;
    for byte in line.iter() {
        if buffer.push(*byte) {
            accepted += 1;
        }
    }
    assert_eq!(accepted, 16);
    assert_eq!(buffer.len(), 16);
    assert!(matches!(buffer.take_message(), Some(Message::StepperMotorRunSteps(1))));
}
