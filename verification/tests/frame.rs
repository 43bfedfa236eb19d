use codegen::frame::{globals, long_to_char_offset};
use codegen::machine::{CodegenError, Location};

#[test]
fn new_frame_has_nothing_allocated() {
    let glb = globals::new();
    assert_eq!(glb.last_used_offset, 0);
    assert_eq!(glb.last_offset_used, 0);
}

#[test]
fn first_slot_is_eight_below_the_frame_base() {
    let mut glb = globals::new();
    assert_eq!(long_to_char_offset(&mut glb), Ok(Location::Frame(-8)));
    assert_eq!(glb.last_offset_used, -8);
    assert_eq!(glb.last_used_offset, -16);
}

#[test]
fn every_allocation_advances_the_cursor() {
    let mut glb = globals::new();
    assert_eq!(long_to_char_offset(&mut glb), Ok(Location::Frame(-8)));
    assert_eq!(long_to_char_offset(&mut glb), Ok(Location::Frame(-16)));
    assert_eq!(long_to_char_offset(&mut glb), Ok(Location::Frame(-24)));
    assert_eq!(glb, globals { last_used_offset: -32, last_offset_used: -24 });
}

#[test]
fn offsets_strictly_decrease_in_steps_of_eight() {
    let mut glb = globals::new();
    let mut previous = 0i64;
    let mut cursor = glb.last_used_offset;
    for n in 1..=1000i64 {
        let slot = match long_to_char_offset(&mut glb) {
            Ok(Location::Frame(offset)) => offset,
            other => panic!("no frame slot: {:?}", other),
        };
        assert!(slot < previous);
        assert_eq!(slot % 8, 0);
        assert_eq!(slot, -8 * n);
        assert!(glb.last_used_offset < cursor);
        assert!(glb.last_used_offset < slot);
        previous = slot;
        cursor = glb.last_used_offset;
    }
}

#[test]
fn last_slot_that_fits_is_handed_out() {
    let mut glb = globals { last_used_offset: i64::MIN + 8, last_offset_used: i64::MIN + 16 };
    assert_eq!(long_to_char_offset(&mut glb), Ok(Location::Frame(i64::MIN + 8)));
    assert_eq!(glb, globals { last_used_offset: i64::MIN, last_offset_used: i64::MIN + 8 });
}

#[test]
fn exhausted_frame_is_refused_and_left_alone() {
    let mut glb = globals { last_used_offset: i64::MIN, last_offset_used: i64::MIN + 8 };
    assert_eq!(long_to_char_offset(&mut glb), Err(CodegenError::FrameExhausted));
    assert_eq!(glb, globals { last_used_offset: i64::MIN, last_offset_used: i64::MIN + 8 });
}
