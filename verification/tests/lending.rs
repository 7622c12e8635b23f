use asterism::lending_iterator::{Enumerate, ZipLending};
use asterism::LendingIterator;

/// Lends out its numbers, one after the other, to be changed in place.
struct Lender {
    numbers: Vec<u32>,
    at: usize,
}

impl Lender {
    fn over(numbers: &[u32]) -> Self {
        Lender { numbers: numbers.to_vec(), at: 0 }
    }
}

impl LendingIterator for Lender {
    type Item<'a> = &'a mut u32;

    fn next(&mut self) -> Option<&mut u32> {
        if self.at == self.numbers.len() {
            None
        } else {
            self.at += 1;
            Some(&mut self.numbers[self.at - 1])
        }
    }
}

#[test]
fn enumerate_numbers_the_items_from_zero() {
    let mut numbered = Enumerate::enumerate(Lender::over(&[7, 8, 9]));
    let mut seen = Vec::new();
    while let Some((number, item)) = numbered.next() {
        *item += 1;
        seen.push((number, *item));
    }
    assert_eq!(seen, vec![(0, 8), (1, 9), (2, 10)]);
    assert!(numbered.next().is_none());
    assert!(numbered.next().is_none());
}

#[test]
fn enumerate_of_nothing_gives_nothing() {
    let mut numbered = Enumerate::enumerate(Lender::over(&[]));
    assert!(numbered.next().is_none());
}

#[test]
fn zip_ends_with_the_shorter_iterator() {
    let mut zipped = ZipLending::zip_lending(Lender::over(&[1, 2, 3]), Lender::over(&[10, 20]));
    let mut seen = Vec::new();
    while let Some((a, b)) = zipped.next() {
        seen.push((*a, *b));
    }
    assert_eq!(seen, vec![(1, 10), (2, 20)]);
    assert!(zipped.next().is_none());

    let mut zipped = ZipLending::zip_lending(Lender::over(&[1]), Lender::over(&[10, 20, 30]));
    assert!(zipped.next().is_some());
    assert!(zipped.next().is_none());
    assert!(zipped.next().is_none());
}

#[test]
fn zip_and_enumerate_nest() {
    let pairs = ZipLending::zip_lending(Lender::over(&[1, 2]), Lender::over(&[3, 4]));
    let mut numbered = Enumerate::enumerate(pairs);
    let mut seen = Vec::new();
    while let Some((number, (a, b))) = numbered.next() {
        seen.push((number, *a + *b));
    }
    assert_eq!(seen, vec![(0, 4), (1, 6)]);
}
