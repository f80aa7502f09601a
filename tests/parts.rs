use pana_lang::draw::{extract_rgba, extract_u32_from_numeric, set_alpha_on_u32, DrawCommand};
use pana_lang::eval::natives::{canonical_key, shape_command};
use pana_lang::value::Builtin;
use pana_lang::rng::Rng;
use pana_lang::text::{create_msg_err, render_i64};

#[test]
fn message_wrapping() {
    assert_eq!(create_msg_err("boom".to_string(), 3, 14), "Execution error. boom. Line 3, column 14.");
    assert_eq!(create_msg_err("^already located".to_string(), 3, 14), "already located");
    let once = create_msg_err("x".to_string(), 1, 2);
    let marked = format!("^{}", once);
    assert_eq!(create_msg_err(marked, 9, 9), once);
}

#[test]
fn decimal_text() {
    assert_eq!(render_i64(0), "0");
    assert_eq!(render_i64(-905), "-905");
    assert_eq!(render_i64(i64::MIN), i64::MIN.to_string());
}

#[test]
fn colours() {
    assert_eq!(set_alpha_on_u32(0xff0000), 0xff0000ff);
    assert_eq!(set_alpha_on_u32(0x12345678), 0x12345678);
    assert_eq!(set_alpha_on_u32(0), 0xff);
    assert_eq!(extract_rgba(0x11223344), (0x11, 0x22, 0x33, 0x44));
    assert_eq!(extract_u32_from_numeric(-1), 0xFFFFFFFF);
    assert_eq!(extract_u32_from_numeric(0x1_0000_0005), 5);
}

#[test]
fn generator_sequence() {
    let mut r = Rng::new(7);
    assert_eq!(r.rand_u64(), 1954339703190640503);
    assert_eq!(r.rand_u64(), 7131555164140208102);
    let mut r = Rng::new(1);
    for _ in 0..200 {
        let v = r.rand_range_i64(-3, 4);
        assert!((-3..4).contains(&v));
        assert!(r.rand_bounded_u64(10) < 10);
        assert!(r.rand_bounded_usize(3) < 3);
    }
}

#[test]
fn shapes_from_numbers() {
    let r = shape_command(Builtin::DrawRect, &vec![1, 2, 3, 4, 0x00ff00]);
    assert!(matches!(r, DrawCommand::Rect { x: 1, y: 2, width: 3, height: 4, color: 0x00ff00ff }));
    let c = shape_command(Builtin::DrawCircle, &vec![5, 6, 7]);
    assert!(matches!(c, DrawCommand::Circle { x: 5, y: 6, radius: 7, color: 0xFFFFFFFF }));
}

#[test]
fn key_aliases() {
    assert_eq!(canonical_key(&"\u{23f6}".to_string()), "arriba");
    assert_eq!(canonical_key(&"+".to_string()), "=");
    assert_eq!(canonical_key(&"q".to_string()), "q");
}
