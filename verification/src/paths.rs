//! Handing out file names that are not taken.
//!
//! A name is a base followed by a number. The numbers are tried from 0 upwards:
//! one that is taken is passed over, one that is free is handed out, and no
//! number is tried twice. Whether a number is taken is for whoever drives the
//! allocator to find out.

use crate::text::texts;
use vstd::prelude::*;
use vstd::string::*;

verus! {

/// The character of a digit.
pub open spec fn digit_char(digit: nat) -> char {
    if digit == 0 {
        '0'
    } else if digit == 1 {
        '1'
    } else if digit == 2 {
        '2'
    } else if digit == 3 {
        '3'
    } else if digit == 4 {
        '4'
    } else if digit == 5 {
        '5'
    } else if digit == 6 {
        '6'
    } else if digit == 7 {
        '7'
    } else if digit == 8 {
        '8'
    } else {
        '9'
    }
}

/// A number in decimal digits, without leading zeros.
pub open spec fn decimal(n: nat) -> Seq<char>
    decreases n,
{
    if n < 10 {
        seq![digit_char(n)]
    } else {
        decimal(n / 10).push(digit_char(n % 10))
    }
}

/// The name that stands for a number: the base, then the number.
pub open spec fn stem_text(base: Seq<char>, suffix: nat) -> Seq<char> {
    base + decimal(suffix)
}

/// The text of a digit.
fn digit_str(digit: u64) -> (text: &'static str)
    requires
        digit < 10,
    ensures
        text@ == seq![digit_char(digit as nat)],
{
    proof {
        reveal_strlit("0");
        reveal_strlit("1");
        reveal_strlit("2");
        reveal_strlit("3");
        reveal_strlit("4");
        reveal_strlit("5");
        reveal_strlit("6");
        reveal_strlit("7");
        reveal_strlit("8");
        reveal_strlit("9");
    }
    if digit == 0 {
        "0"
    } else if digit == 1 {
        "1"
    } else if digit == 2 {
        "2"
    } else if digit == 3 {
        "3"
    } else if digit == 4 {
        "4"
    } else if digit == 5 {
        "5"
    } else if digit == 6 {
        "6"
    } else if digit == 7 {
        "7"
    } else if digit == 8 {
        "8"
    } else {
        "9"
    }
}

/// Appends a number in decimal digits.
fn push_decimal(text: &mut String, n: u64)
    ensures
        final(text)@ == old(text)@ + decimal(n as nat),
    decreases n,
{
    if n >= 10 {
        push_decimal(text, n / 10);
    }
    text.append(digit_str(n % 10));
}

/// The name that stands for a number under a base.
pub fn stem_name(base: &str, suffix: u64) -> (name: String)
    ensures
        name@ == stem_text(base@, suffix as nat),
{
    let mut name = base.to_owned();
    push_decimal(&mut name, suffix);
    name
}

/// An allocator as contracts speak of it: how many numbers are wanted, the
/// number that is tried next, and the numbers handed out so far, in order.
pub struct AllocatorView {
    pub wanted: nat,
    pub next: nat,
    pub granted: Seq<nat>,
}

impl AllocatorView {
    /// An allocator that has tried no number yet.
    pub open spec fn fresh(wanted: nat) -> AllocatorView {
        AllocatorView { wanted, next: 0, granted: Seq::empty() }
    }

    /// As many numbers are handed out as are wanted.
    pub open spec fn done(self) -> bool {
        self.granted.len() >= self.wanted
    }

    /// The number to try, unless the allocator is done.
    pub open spec fn candidate(self) -> Option<nat> {
        if self.done() {
            None
        } else {
            Some(self.next)
        }
    }

    /// The allocator after it learns whether its candidate is taken: a taken
    /// number is passed over, a free one is handed out, and either way the
    /// next number is tried next. An allocator that is done stays as it is.
    pub open spec fn observe(self, taken: bool) -> AllocatorView {
        if self.done() {
            self
        } else if taken {
            AllocatorView { wanted: self.wanted, next: self.next + 1, granted: self.granted }
        } else {
            AllocatorView {
                wanted: self.wanted,
                next: self.next + 1,
                granted: self.granted.push(self.next),
            }
        }
    }

    /// The allocator after it learns of one candidate after the other whether
    /// it is taken: `answers` holds what it learns, in order.
    pub open spec fn feed(self, answers: Seq<bool>) -> AllocatorView
        decreases answers.len(),
    {
        if answers.len() == 0 {
            self
        } else {
            self.feed(answers.drop_last()).observe(answers.last())
        }
    }
}

/// The numbers as they are handed over: each one no greater than `u64::MAX`.
pub open spec fn numbers(granted: Seq<u64>) -> Seq<nat> {
    granted.map_values(|n: u64| n as nat)
}

/// Hands out the numbers of free names, the least first.
#[derive(Debug)]
pub struct StemAllocator {
    wanted: usize,
    next: u64,
    granted: Vec<u64>,
}

impl View for StemAllocator {
    type V = AllocatorView;

    closed spec fn view(&self) -> AllocatorView {
        AllocatorView {
            wanted: self.wanted as nat,
            next: self.next as nat,
            granted: numbers(self.granted@),
        }
    }
}

impl StemAllocator {
    /// An allocator for `count` names that has tried no number yet.
    pub fn new(count: usize) -> (allocator: StemAllocator)
        ensures
            allocator@ == AllocatorView::fresh(count as nat),
    {
        let allocator = StemAllocator { wanted: count, next: 0, granted: Vec::new() };
        assert(numbers(allocator.granted@) == Seq::<nat>::empty());
        allocator
    }

    /// The number whose name is to be looked for, or `None` where as many
    /// numbers are handed out as are wanted.
    pub fn candidate(&self) -> (number: Option<u64>)
        ensures
            match number {
                Some(n) => self@.candidate() == Some(n as nat),
                None => self@.candidate() is None,
            },
    {
        if self.granted.len() < self.wanted {
            Some(self.next)
        } else {
            None
        }
    }

    /// Tells the allocator whether the name of its candidate is taken.
    pub fn observe(&mut self, taken: bool)
        requires
            old(self)@.candidate() is Some ==> old(self)@.next < u64::MAX,
        ensures
            final(self)@ == old(self)@.observe(taken),
    {
        if self.granted.len() < self.wanted {
            if !taken {
                assert(numbers(self.granted@.push(self.next)) == numbers(self.granted@).push(
                    self.next as nat,
                ));
                self.granted.push(self.next);
            }
            self.next = self.next + 1;
        }
    }

    /// The numbers handed out so far, in order.
    pub fn granted(&self) -> (granted: Vec<u64>)
        ensures
            numbers(granted@) == self@.granted,
    {
        self.granted.clone()
    }

    /// The names handed out so far under a base, in order.
    pub fn stems(&self, base: &str) -> (names: Vec<String>)
        ensures
            names@.len() == self@.granted.len(),
            forall|i: int|
                0 <= i < names@.len() ==> (#[trigger] names@[i])@ == stem_text(
                    base@,
                    self@.granted[i],
                ),
    {
        let mut names: Vec<String> = Vec::new();
        let mut i: usize = 0;
        while i < self.granted.len()
            invariant
                i <= self.granted@.len(),
                names@.len() == i,
                forall|j: int|
                    0 <= j < i ==> (#[trigger] names@[j])@ == stem_text(
                        base@,
                        self.granted@[j] as nat,
                    ),
            decreases self.granted@.len() - i,
        {
            names.push(stem_name(base, self.granted[i]));
            i += 1;
        }
        names
    }
}

/// Whatever it learns, an allocator that started fresh has handed out
/// exactly the numbers below the one it tries next that it learned to be
/// free, in rising order, and never more than were wanted: no free number is
/// passed over, none is handed out twice, and none that was passed over is
/// tried again. Until it is done, it has tried as many numbers as it has
/// answers, each number once: the answer at index `n` is that for number `n`.
pub proof fn lemma_allocation(wanted: nat, answers: Seq<bool>)
    ensures
        ({
            let reached = AllocatorView::fresh(wanted).feed(answers);
            &&& reached.wanted == wanted
            &&& reached.granted.len() <= wanted
            &&& reached.next <= answers.len()
            &&& !reached.done() ==> reached.next == answers.len()
            &&& forall|i: int, j: int|
                0 <= i < j < reached.granted.len() ==> reached.granted[i] < reached.granted[j]
            &&& forall|i: int|
                0 <= i < reached.granted.len() ==> reached.granted[i] < reached.next
                    && !answers[reached.granted[i] as int]
            &&& forall|n: nat|
                n < reached.next && !answers[n as int] ==> reached.granted.contains(n)
        }),
    decreases answers.len(),
{
    if answers.len() > 0 {
        lemma_allocation(wanted, answers.drop_last());
        let before = AllocatorView::fresh(wanted).feed(answers.drop_last());
        let reached = AllocatorView::fresh(wanted).feed(answers);
        assert forall|i: int| 0 <= i < before.granted.len() implies
            answers.drop_last()[before.granted[i] as int] == answers[before.granted[i] as int] by {}
        if !before.done() && !answers.last() {
            assert forall|n: nat| n < reached.next && !answers[n as int] implies
                reached.granted.contains(n) by {
                if n < before.next {
                    assert(!answers.drop_last()[n as int]);
                    let at = choose|at: int|
                        0 <= at < before.granted.len() && before.granted[at] == n;
                    assert(reached.granted[at] == n);
                } else {
                    assert(reached.granted[before.granted.len() as int] == n);
                }
            }
        } else {
            assert forall|n: nat| n < reached.next && !answers[n as int] implies
                reached.granted.contains(n) by {
                if n < before.next {
                    assert(!answers.drop_last()[n as int]);
                }
            }
        }
    }
}

/// The number that is tried next never falls, and what was handed out stays
/// handed out.
pub proof fn lemma_allocation_monotone(start: AllocatorView, taken: bool)
    ensures
        start.next <= start.observe(taken).next,
        start.granted.is_prefix_of(start.observe(taken).granted),
{
}

/// The decimal digits of a number are digits, and there is at least one.
pub proof fn lemma_decimal_digits(n: nat)
    ensures
        decimal(n).len() >= 1,
        n >= 10 ==> decimal(n).len() >= 2,
        forall|i: int| 0 <= i < decimal(n).len() ==> '0' <= #[trigger] decimal(n)[i] <= '9',
    decreases n,
{
    if n >= 10 {
        lemma_decimal_digits(n / 10);
    }
}

/// Different numbers have different decimal digits.
pub proof fn lemma_decimal_injective(a: nat, b: nat)
    requires
        decimal(a) == decimal(b),
    ensures
        a == b,
    decreases a,
{
    lemma_decimal_digits(a);
    lemma_decimal_digits(b);
    if a >= 10 && b >= 10 {
        assert(decimal(b).last() == digit_char(b % 10));
        assert(decimal(a).drop_last() == decimal(a / 10));
        assert(decimal(b).drop_last() == decimal(b / 10));
        lemma_decimal_injective(a / 10, b / 10);
    } else if a < 10 && b < 10 {
        assert(decimal(b)[0] == digit_char(b));
    }
}

/// Different numbers have different names under one base.
pub proof fn lemma_stems_distinct(base: Seq<char>, a: nat, b: nat)
    requires
        a != b,
    ensures
        stem_text(base, a) != stem_text(base, b),
{
    if stem_text(base, a) == stem_text(base, b) {
        assert(stem_text(base, a).skip(base.len() as int) == decimal(a));
        assert(stem_text(base, b).skip(base.len() as int) == decimal(b));
        lemma_decimal_injective(a, b);
    }
}

/// Whatever it learns, the names that an allocator hands out under one base
/// differ from each other.
pub proof fn lemma_allocated_names_distinct(base: Seq<char>, wanted: nat, answers: Seq<bool>)
    ensures
        ({
            let granted = AllocatorView::fresh(wanted).feed(answers).granted;
            forall|i: int, j: int|
                0 <= i < j < granted.len() ==> stem_text(base, granted[i]) != stem_text(
                    base,
                    granted[j],
                )
        }),
{
    lemma_allocation(wanted, answers);
    let granted = AllocatorView::fresh(wanted).feed(answers).granted;
    assert forall|i: int, j: int| 0 <= i < j < granted.len() implies stem_text(base, granted[i])
        != stem_text(base, granted[j]) by {
        lemma_stems_distinct(base, granted[i], granted[j]);
    }
}

/// `names` is what an allocator for `wanted` names under `base` hands out
/// where it learns `answers`, by the end of which it is done or has run out
/// of numbers.
pub open spec fn is_allocation(
    names: Seq<Seq<char>>,
    base: Seq<char>,
    wanted: nat,
    answers: Seq<bool>,
) -> bool {
    let reached = AllocatorView::fresh(wanted).feed(answers);
    &&& reached.done() || reached.next == u64::MAX
    &&& names == reached.granted.map_values(|n: nat| stem_text(base, n))
}

/// `glob::glob`, asked whether any path matches the pattern: what it finds
/// depends on the files that there are when it is asked. `None` where it
/// refuses the pattern.
#[verifier::external_body]
fn any_path_matches(pattern: &str) -> (found: Option<bool>) {
    match glob::glob(pattern) {
        Ok(paths) => Some(paths.last().is_some()),
        Err(_) => None,
    }
}

/// The pattern that the files of a stem match: the stem, a dot, and anything.
pub open spec fn pattern_text(stem: Seq<char>) -> Seq<char> {
    stem + ".*"@
}

/// Whether a name counts as taken, given what the search for its files gave:
/// it is taken where a file was found, and free where none was found or the
/// search refused the pattern.
pub open spec fn counts_as_taken(found: Option<bool>) -> bool {
    found == Some(true)
}

/// The pattern to search the files of a stem with.
pub fn stem_pattern(stem: String) -> (pattern: String)
    ensures
        pattern@ == pattern_text(stem@),
{
    stem.concat(".*")
}

/// Tells whether a name counts as taken, given what the search for its files
/// gave.
pub fn taken_from(found: Option<bool>) -> (taken: bool)
    ensures
        taken == counts_as_taken(found),
{
    match found {
        Some(found) => found,
        None => false,
    }
}

/// Looks for a file whose path is the stem, a dot, and anything. A stem that
/// makes no pattern counts as free. What is found depends on the files that
/// there are, so nothing is promised of the answer.
fn is_taken(stem: String) -> (taken: bool) {
    let pattern = stem_pattern(stem);
    taken_from(any_path_matches(pattern.as_str()))
}

/// Finds `count` names under `base` that no file carries yet, whatever its
/// extension, trying the numbers from 0 upwards.
///
/// `shown` is the base as the directory shows it: the path of a file named
/// `base` there, as text. A number is taken where a file's path is `shown`,
/// the number, a dot and anything. The names are those of the numbers below
/// the last one tried that were found free, the least first: each number is
/// looked for once, and none that is passed over is tried again. There are
/// `count` of them, unless the numbers run out at `u64::MAX`.
pub fn allocate_stems(shown: &str, base: &str, count: usize) -> (names: Vec<String>)
    ensures
        exists|answers: Seq<bool>| is_allocation(texts(names@), base@, count as nat, answers),
        names@.len() <= count,
{
    let mut allocator = StemAllocator::new(count);
    let ghost mut answers = Seq::<bool>::empty();
    loop
        invariant
            allocator@ == AllocatorView::fresh(count as nat).feed(answers),
            allocator@.next <= u64::MAX,
        ensures
            allocator@ == AllocatorView::fresh(count as nat).feed(answers),
            allocator@.done() || allocator@.next == u64::MAX,
        decreases u64::MAX - allocator@.next,
    {
        let number = match allocator.candidate() {
            Some(number) => number,
            None => { break ; },
        };
        if number == u64::MAX {
            break ;
        }
        let taken = is_taken(stem_name(shown, number));
        allocator.observe(taken);
        proof {
            assert(answers.push(taken).drop_last() == answers);
            answers = answers.push(taken);
        }
    }
    let names = allocator.stems(base);
    proof {
        lemma_allocation(count as nat, answers);
        assert(texts(names@) == allocator@.granted.map_values(|n: nat| stem_text(base@, n)));
        assert(is_allocation(texts(names@), base@, count as nat, answers));
    }
    names
}

} // verus!
