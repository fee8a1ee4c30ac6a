use stk500v2::sequence::SequenceGenerator;

fn after(skipped: usize) -> SequenceGenerator {
    let mut gen = SequenceGenerator::new();
    for _ in 0..skipped {
        gen.next();
    }
    gen
}

#[test]
fn overflows_after_255() {
    let mut gen = after(256);
    assert_eq!(gen.next(), Some(0));
}

#[test]
fn starts_at_0() {
    let mut gen = SequenceGenerator::new();
    assert_eq!(gen.next(), Some(0));
}

#[test]
fn increments_by_1() {
    let mut gen = after(1);
    assert_eq!(gen.next(), Some(1));
}

#[test]
fn counts_modulo_256() {
    let mut gen = SequenceGenerator::new();
    for n in 0..1000usize {
        assert_eq!(gen.next(), Some((n % 256) as u8));
    }
}

#[test]
fn reaches_255() {
    let mut gen = after(255);
    assert_eq!(gen.next(), Some(255));
    assert_eq!(gen.next(), Some(0));
}
