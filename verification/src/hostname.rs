//! Host names: a card of the tarot, drawn by the clock.

use vstd::prelude::*;
use vstd::string::*;
use crate::text::{
    hexadecimal, is_hexadecimal_digit, law_padded_hexadecimal_is_unambiguous,
    padded_hexadecimal_text, zero_padded,
};

verus! {

/// The suits of the minor arcana.
pub open spec fn suits() -> Seq<Seq<char>> {
    seq![
        "swords"@,
        "wands"@,
        "pentacles"@,
        "cups"@,
    ]
}

/// The ranks of the minor arcana.
pub open spec fn minor_arcana() -> Seq<Seq<char>> {
    seq![
        "ace"@,
        "two"@,
        "three"@,
        "four"@,
        "five"@,
        "six"@,
        "seven"@,
        "eight"@,
        "nine"@,
        "ten"@,
        "page"@,
        "knight"@,
        "queen"@,
        "king"@,
    ]
}

/// The major arcana.
pub open spec fn major_arcana() -> Seq<Seq<char>> {
    seq![
        "fool"@,
        "magician"@,
        "high-priestess"@,
        "empress"@,
        "emperor"@,
        "hierophant"@,
        "lovers"@,
        "chariot"@,
        "strength"@,
        "hermit"@,
        "wheel"@,
        "justice"@,
        "hanged-man"@,
        "death"@,
        "temperance"@,
        "devil"@,
        "tower"@,
        "star"@,
        "moon"@,
        "sun"@,
        "judgment"@,
        "world"@,
    ]
}

/// The host name for the card at `index` of the deck and a time in seconds: the major arcana come
/// first, then the minor arcana suit by suit. In front stands the time in hexadecimal notation,
/// at least five digits of it.
pub open spec fn card_name(seconds: u64, index: int) -> Seq<char> {
    let time = zero_padded(hexadecimal(seconds as nat), 5);
    if index < 22 {
        time + "-"@ + major_arcana()[index]
    } else {
        time + "c-"@ + minor_arcana()[(index - 22) % 14] + "-of-"@ + suits()[(index - 22) / 14]
    }
}

/// The host name for a clock reading: the nanoseconds draw a card from the deck of 78.
pub open spec fn hostname_at(seconds: i64, nanoseconds: i64) -> Seq<char> {
    card_name(seconds as u64, (nanoseconds as u64 % 78) as int)
}

/// The host name for a clock reading.
pub fn hostname(seconds: i64, nanoseconds: i64) -> (name: String)
    ensures
        name@ == hostname_at(seconds, nanoseconds),
{
    let suits: [&'static str; 4] = [
        "swords",
        "wands",
        "pentacles",
        "cups",
    ];
    let minor: [&'static str; 14] = [
        "ace",
        "two",
        "three",
        "four",
        "five",
        "six",
        "seven",
        "eight",
        "nine",
        "ten",
        "page",
        "knight",
        "queen",
        "king",
    ];
    let major: [&'static str; 22] = [
        "fool",
        "magician",
        "high-priestess",
        "empress",
        "emperor",
        "hierophant",
        "lovers",
        "chariot",
        "strength",
        "hermit",
        "wheel",
        "justice",
        "hanged-man",
        "death",
        "temperance",
        "devil",
        "tower",
        "star",
        "moon",
        "sun",
        "judgment",
        "world",
    ];
    let index: u64 = (nanoseconds as u64) % 78;
    let time: String = padded_hexadecimal_text(seconds as u64, 5);
    if index < 22 {
        let card: &'static str = major[index as usize];
        assert(card@ == major_arcana()[index as int]);
        time.concat("-").concat(card)
    } else {
        let index: u64 = index - 22;
        let rank: &'static str = minor[(index % 14) as usize];
        let suit: &'static str = suits[(index / 14) as usize];
        assert(rank@ == minor_arcana()[index as int % 14]);
        assert(suit@ == self::suits()[index as int / 14]);
        time.concat("c-").concat(rank).concat("-of-").concat(suit)
    }
}

/// `nix::time::clock_gettime` on the monotonic clock: its seconds and nanoseconds, or nothing
/// where the clock cannot be read. Nothing is said of the reading.
#[verifier::external_body]
fn monotonic_time() -> (reading: Option<(i64, i64)>) {
    match nix::time::clock_gettime(nix::time::ClockId::CLOCK_MONOTONIC) {
        Ok(time) => Some((time.tv_sec(), time.tv_nsec())),
        Err(_) => None,
    }
}

/// The host name for what a clock gave: for the reading, where there is one. A clock that cannot be
/// read counts as one that shows zero.
pub open spec fn hostname_on(reading: Option<(i64, i64)>) -> Seq<char> {
    match reading {
        Some((seconds, nanoseconds)) => hostname_at(seconds, nanoseconds),
        None => hostname_at(0, 0),
    }
}

/// A host name by the clock at hand: for a reading that this very clock gave, and for no other.
pub fn hostname_by<F: Fn() -> Option<(i64, i64)>>(clock: F) -> (name: String)
    requires
        clock.requires(()),
    ensures
        exists|reading: Option<(i64, i64)>| #[trigger]
            clock.ensures((), reading) && name@ == hostname_on(reading),
{
    let reading = clock();
    match reading {
        Some((seconds, nanoseconds)) => hostname(seconds, nanoseconds),
        None => hostname(0, 0),
    }
}

/// Whether `reading` is one that the monotonic clock gave.
pub closed spec fn clock_gave(reading: Option<(i64, i64)>) -> bool {
    call_ensures(monotonic_time, (), reading)
}

/// A host name for the present moment: for a reading that the monotonic clock gave.
pub fn choose_hostname() -> (name: String)
    ensures
        exists|seconds: i64, nanoseconds: i64| name@ == hostname_at(seconds, nanoseconds),
        exists|reading: Option<(i64, i64)>| #[trigger]
            clock_gave(reading) && name@ == hostname_on(reading),
{
    let name = hostname_by(monotonic_time);
    proof {
        let reading = choose|reading: Option<(i64, i64)>| #[trigger]
            call_ensures(monotonic_time, (), reading) && name@ == hostname_on(reading);
        assert(clock_gave(reading));
    }
    name
}

/// A power of sixteen.
spec fn power_of_sixteen(k: nat) -> nat
    decreases k,
{
    if k == 0 {
        1
    } else {
        16 * power_of_sixteen((k - 1) as nat)
    }
}

proof fn lemma_hexadecimal_length(n: nat, k: nat)
    requires
        n < power_of_sixteen(k),
        k > 0,
    ensures
        hexadecimal(n).len() <= k,
    decreases k,
{
    if n >= 16 {
        assert(k > 1) by {
            reveal_with_fuel(power_of_sixteen, 2);
        }
        lemma_hexadecimal_length(n / 16, (k - 1) as nat);
        assert(hexadecimal(n) == hexadecimal(n / 16).push(crate::text::digit(n % 16)));
    }
}

/// Which of the major arcana a name is, by the letters that it begins with.
spec fn major_index(s: Seq<char>) -> int {
    if s[0] == 'f' {
        0
    } else if s[0] == 'm' && s[1] == 'a' {
        1
    } else if s[0] == 'h' && s[1] == 'i' && s[2] == 'g' {
        2
    } else if s[0] == 'e' && s[1] == 'm' && s[2] == 'p' && s[3] == 'r' {
        3
    } else if s[0] == 'e' && s[1] == 'm' && s[2] == 'p' && s[3] == 'e' {
        4
    } else if s[0] == 'h' && s[1] == 'i' && s[2] == 'e' {
        5
    } else if s[0] == 'l' {
        6
    } else if s[0] == 'c' {
        7
    } else if s[0] == 's' && s[1] == 't' && s[2] == 'r' {
        8
    } else if s[0] == 'h' && s[1] == 'e' {
        9
    } else if s[0] == 'w' && s[1] == 'h' {
        10
    } else if s[0] == 'j' && s[1] == 'u' && s[2] == 's' {
        11
    } else if s[0] == 'h' && s[1] == 'a' {
        12
    } else if s[0] == 'd' && s[1] == 'e' && s[2] == 'a' {
        13
    } else if s[0] == 't' && s[1] == 'e' {
        14
    } else if s[0] == 'd' && s[1] == 'e' && s[2] == 'v' {
        15
    } else if s[0] == 't' && s[1] == 'o' {
        16
    } else if s[0] == 's' && s[1] == 't' && s[2] == 'a' {
        17
    } else if s[0] == 'm' && s[1] == 'o' {
        18
    } else if s[0] == 's' && s[1] == 'u' {
        19
    } else if s[0] == 'j' && s[1] == 'u' && s[2] == 'd' {
        20
    } else {
        21
    }
}

/// Which of the ranks a name is, by the letters that it begins with.
spec fn minor_index(s: Seq<char>) -> int {
    if s[0] == 'a' {
        0
    } else if s[0] == 't' && s[1] == 'w' {
        1
    } else if s[0] == 't' && s[1] == 'h' {
        2
    } else if s[0] == 'f' && s[1] == 'o' {
        3
    } else if s[0] == 'f' && s[1] == 'i' {
        4
    } else if s[0] == 's' && s[1] == 'i' {
        5
    } else if s[0] == 's' && s[1] == 'e' {
        6
    } else if s[0] == 'e' {
        7
    } else if s[0] == 'n' {
        8
    } else if s[0] == 't' && s[1] == 'e' {
        9
    } else if s[0] == 'p' {
        10
    } else if s[0] == 'k' && s[1] == 'n' {
        11
    } else if s[0] == 'q' {
        12
    } else {
        13
    }
}

/// Which of the suits a name is, by the letter that it begins with.
spec fn suit_index(s: Seq<char>) -> int {
    if s[0] == 's' {
        0
    } else if s[0] == 'w' {
        1
    } else if s[0] == 'p' {
        2
    } else {
        3
    }
}

/// The names of the major arcana: they differ from one another, they are short, and those with a dash
/// in them begin with `h`.
proof fn lemma_major_arcana(index: int)
    requires
        0 <= index < 22,
    ensures
        major_index(major_arcana()[index]) == index,
        0 < major_arcana()[index].len() <= 14,
        major_arcana()[index][0] == 'h' || !major_arcana()[index].contains('-'),
{
    reveal_strlit("fool");
    reveal_strlit("magician");
    reveal_strlit("high-priestess");
    reveal_strlit("empress");
    reveal_strlit("emperor");
    reveal_strlit("hierophant");
    reveal_strlit("lovers");
    reveal_strlit("chariot");
    reveal_strlit("strength");
    reveal_strlit("hermit");
    reveal_strlit("wheel");
    reveal_strlit("justice");
    reveal_strlit("hanged-man");
    reveal_strlit("death");
    reveal_strlit("temperance");
    reveal_strlit("devil");
    reveal_strlit("tower");
    reveal_strlit("star");
    reveal_strlit("moon");
    reveal_strlit("sun");
    reveal_strlit("judgment");
    reveal_strlit("world");
}

/// The names of the ranks: they differ from one another, they are short, and none has a dash in it or
/// begins with `h`.
proof fn lemma_ranks(index: int)
    requires
        0 <= index < 14,
    ensures
        minor_index(minor_arcana()[index]) == index,
        0 < minor_arcana()[index].len() <= 6,
        minor_arcana()[index][0] != 'h',
        !minor_arcana()[index].contains('-'),
{
    reveal_strlit("ace");
    reveal_strlit("two");
    reveal_strlit("three");
    reveal_strlit("four");
    reveal_strlit("five");
    reveal_strlit("six");
    reveal_strlit("seven");
    reveal_strlit("eight");
    reveal_strlit("nine");
    reveal_strlit("ten");
    reveal_strlit("page");
    reveal_strlit("knight");
    reveal_strlit("queen");
    reveal_strlit("king");
}

/// The names of the suits: they differ from one another, and they are short.
proof fn lemma_suits(index: int)
    requires
        0 <= index < 4,
    ensures
        suit_index(suits()[index]) == index,
        suits()[index].len() <= 9,
{
    reveal_strlit("swords");
    reveal_strlit("wands");
    reveal_strlit("pentacles");
    reveal_strlit("cups");
}

/// A host name has at most 64 characters, which is what Linux takes.
pub proof fn law_hostname_fits(seconds: i64, nanoseconds: i64)
    ensures
        hostname_at(seconds, nanoseconds).len() <= 64,
{
    reveal_strlit("-");
    reveal_strlit("c-");
    reveal_strlit("-of-");
    assert(power_of_sixteen(16) == 0x1_0000_0000_0000_0000) by {
        reveal_with_fuel(power_of_sixteen, 17);
    }
    lemma_hexadecimal_length(seconds as u64 as nat, 16);
    let index = (nanoseconds as u64 % 78) as int;
    if index < 22 {
        lemma_major_arcana(index);
    } else {
        lemma_ranks((index - 22) % 14);
        lemma_suits((index - 22) / 14);
    }
}

/// A text is cut at its first dash in one way only.
proof fn lemma_cut_at_the_dash(a: Seq<char>, x: Seq<char>, b: Seq<char>, y: Seq<char>)
    requires
        a + seq!['-'] + x == b + seq!['-'] + y,
        !a.contains('-'),
        !b.contains('-'),
    ensures
        a == b,
        x == y,
{
    let whole = a + seq!['-'] + x;
    let other = b + seq!['-'] + y;
    assert(whole[a.len() as int] == '-');
    assert(other[b.len() as int] == '-');
    if a.len() < b.len() {
        assert(b[a.len() as int] == other[a.len() as int]);
    }
    if b.len() < a.len() {
        assert(a[b.len() as int] == whole[b.len() as int]);
    }
    assert(a =~= whole.take(a.len() as int));
    assert(b =~= other.take(b.len() as int));
    assert(x =~= whole.skip(a.len() as int + 1));
    assert(y =~= other.skip(b.len() as int + 1));
}

/// What stands before the first dash of a host name.
spec fn before_dash(seconds: u64, index: int) -> Seq<char> {
    let time = zero_padded(hexadecimal(seconds as nat), 5);
    if index < 22 {
        time
    } else {
        time.push('c')
    }
}

/// The card in a host name.
spec fn card(index: int) -> Seq<char> {
    if index < 22 {
        major_arcana()[index]
    } else {
        minor_arcana()[(index - 22) % 14] + seq!['-'] + ("of-"@ + suits()[(index - 22) / 14])
    }
}

proof fn lemma_parts_of_a_name(seconds: u64, index: int)
    requires
        0 <= index < 78,
    ensures
        card_name(seconds, index) == before_dash(seconds, index) + seq!['-'] + card(index),
        !before_dash(seconds, index).contains('-'),
{
    reveal_strlit("-");
    reveal_strlit("c-");
    reveal_strlit("-of-");
    reveal_strlit("of-");
    let time = zero_padded(hexadecimal(seconds as nat), 5);
    let front = before_dash(seconds, index);
    law_padded_hexadecimal_is_unambiguous(seconds as nat, seconds as nat, 5);
    assert forall|i: int| 0 <= i < front.len() implies front[i] != '-' by {
        if i < time.len() {
            assert(front[i] == time[i]);
            assert(is_hexadecimal_digit(time[i]));
        }
    }
    assert(card_name(seconds, index) =~= front + seq!['-'] + card(index));
}

/// The cards of the deck differ from one another.
proof fn lemma_cards_differ(i: int, j: int)
    requires
        0 <= i < 78,
        0 <= j < 78,
        card(i) == card(j),
    ensures
        i == j,
{
    if i < 22 && j < 22 {
        lemma_major_arcana(i);
        lemma_major_arcana(j);
    } else if i >= 22 && j >= 22 {
        let (a, b) = ((i - 22) % 14, (j - 22) % 14);
        let (x, y) = ((i - 22) / 14, (j - 22) / 14);
        lemma_ranks(a);
        lemma_ranks(b);
        lemma_suits(x);
        lemma_suits(y);
        lemma_cut_at_the_dash(
            minor_arcana()[a],
            "of-"@ + suits()[x],
            minor_arcana()[b],
            "of-"@ + suits()[y],
        );
        assert(suits()[x] =~= ("of-"@ + suits()[x]).skip("of-"@.len() as int));
        assert(suits()[y] =~= ("of-"@ + suits()[y]).skip("of-"@.len() as int));
    } else {
        let (major, minor) = if i < 22 {
            (i, j)
        } else {
            (j, i)
        };
        let rank = minor_arcana()[(minor - 22) % 14];
        lemma_major_arcana(major);
        lemma_ranks((minor - 22) % 14);
        assert(card(minor)[0] == rank[0]);
        assert(card(minor)[rank.len() as int] == '-');
        assert(card(minor).contains('-'));
    }
}

/// Two host names are the same only for the same second and the same card: within one second every
/// card of the deck gives its own name, and the names of different seconds never meet.
pub proof fn law_hostnames_differ(s1: i64, n1: i64, s2: i64, n2: i64)
    ensures
        hostname_at(s1, n1) == hostname_at(s2, n2) <==> s1 == s2 && n1 as u64 % 78 == n2 as u64
            % 78,
        n1 >= 0 && n2 >= 0 ==> (hostname_at(s1, n1) == hostname_at(s2, n2) <==> s1 == s2 && n1 % 78
            == n2 % 78),
{
    let (t1, t2) = (s1 as u64, s2 as u64);
    let (i, j) = ((n1 as u64 % 78) as int, (n2 as u64 % 78) as int);
    assert(t1 == t2 ==> s1 == s2) by (bit_vector)
        requires
            t1 == s1 as u64,
            t2 == s2 as u64,
    ;
    if hostname_at(s1, n1) == hostname_at(s2, n2) {
        lemma_parts_of_a_name(t1, i);
        lemma_parts_of_a_name(t2, j);
        lemma_cut_at_the_dash(before_dash(t1, i), card(i), before_dash(t2, j), card(j));
        lemma_cards_differ(i, j);
        let time1 = zero_padded(hexadecimal(t1 as nat), 5);
        let time2 = zero_padded(hexadecimal(t2 as nat), 5);
        if i >= 22 {
            assert(time1 =~= time1.push('c').drop_last());
            assert(time2 =~= time2.push('c').drop_last());
        }
        law_padded_hexadecimal_is_unambiguous(t1 as nat, t2 as nat, 5);
    }
}

/// The deck, card by card: the major arcana, and the ranks of each suit.
pub proof fn law_deck()
    ensures
        major_arcana().len() == 22,
        major_arcana()[0] == "fool"@,
        major_arcana()[1] == "magician"@,
        major_arcana()[2] == "high-priestess"@,
        major_arcana()[3] == "empress"@,
        major_arcana()[4] == "emperor"@,
        major_arcana()[5] == "hierophant"@,
        major_arcana()[6] == "lovers"@,
        major_arcana()[7] == "chariot"@,
        major_arcana()[8] == "strength"@,
        major_arcana()[9] == "hermit"@,
        major_arcana()[10] == "wheel"@,
        major_arcana()[11] == "justice"@,
        major_arcana()[12] == "hanged-man"@,
        major_arcana()[13] == "death"@,
        major_arcana()[14] == "temperance"@,
        major_arcana()[15] == "devil"@,
        major_arcana()[16] == "tower"@,
        major_arcana()[17] == "star"@,
        major_arcana()[18] == "moon"@,
        major_arcana()[19] == "sun"@,
        major_arcana()[20] == "judgment"@,
        major_arcana()[21] == "world"@,
        minor_arcana().len() == 14,
        minor_arcana()[0] == "ace"@,
        minor_arcana()[1] == "two"@,
        minor_arcana()[2] == "three"@,
        minor_arcana()[3] == "four"@,
        minor_arcana()[4] == "five"@,
        minor_arcana()[5] == "six"@,
        minor_arcana()[6] == "seven"@,
        minor_arcana()[7] == "eight"@,
        minor_arcana()[8] == "nine"@,
        minor_arcana()[9] == "ten"@,
        minor_arcana()[10] == "page"@,
        minor_arcana()[11] == "knight"@,
        minor_arcana()[12] == "queen"@,
        minor_arcana()[13] == "king"@,
        suits().len() == 4,
        suits()[0] == "swords"@,
        suits()[1] == "wands"@,
        suits()[2] == "pentacles"@,
        suits()[3] == "cups"@,
{
}

/// The name of every card at every second: the seconds in hexadecimal notation, at least five digits
/// of them, then the card. There are 22 cards without a suit, and the others are 14 to each suit. A
/// negative time wraps around.
pub proof fn law_names_of_the_cards(seconds: i64, round: nat, major: int, rank: int, suit: int)
    requires
        0 <= major < 22,
        0 <= rank < 14,
        0 <= suit < 4,
    ensures
        ({
            let shown = if seconds >= 0 {
                seconds as nat
            } else {
                (0x1_0000_0000_0000_0000 + seconds) as nat
            };
            let time = zero_padded(hexadecimal(shown), 5);
            let first = 78 * round;
            let n1 = first + major;
            let n2 = first + 22 + 14 * suit + rank;
            &&& n1 <= i64::MAX ==> hostname_at(seconds, n1 as i64) == time + "-"@
                + major_arcana()[major]
            &&& n2 <= i64::MAX ==> hostname_at(seconds, n2 as i64) == time + "c-"@
                + minor_arcana()[rank] + "-of-"@ + suits()[suit]
        }),
{
    let t = seconds as u64;
    assert(seconds < 0 ==> t == 0x1_0000_0000_0000_0000 + seconds) by (bit_vector)
        requires
            t == seconds as u64,
    ;
    assert((78 * round + major) % 78 == major);
    assert((78 * round + 22 + 14 * suit + rank) % 78 == 22 + 14 * suit + rank);
    assert((14 * suit + rank) % 14 == rank && (14 * suit + rank) / 14 == suit);
}

/// Every reading of a clock counts: the host name is that of the very second and nanosecond that the
/// clock shows, two readings give the same name only for the same second and card, and only a clock
/// that gives no reading counts as one that shows zero.
pub proof fn law_every_reading_counts(s1: i64, n1: i64, s2: i64, n2: i64)
    ensures
        hostname_on(Some((s1, n1))) == hostname_at(s1, n1),
        hostname_on(None) == hostname_at(0, 0),
        n1 >= 0 && n2 >= 0 ==> (hostname_on(Some((s1, n1))) == hostname_on(Some((s2, n2))) <==> s1
            == s2 && n1 % 78 == n2 % 78),
{
    law_hostnames_differ(s1, n1, s2, n2);
}

/// Negative nanoseconds draw the card that they wrap around to.
pub proof fn law_negative_nanoseconds(seconds: i64, nanoseconds: i64)
    requires
        nanoseconds < 0,
    ensures
        hostname_at(seconds, nanoseconds) == hostname_at(
            seconds,
            ((0x1_0000_0000_0000_0000 + nanoseconds) % 78) as i64,
        ),
{
    let n = nanoseconds as u64;
    assert(nanoseconds < 0 ==> n == 0x1_0000_0000_0000_0000 + nanoseconds) by (bit_vector)
        requires
            n == nanoseconds as u64,
    ;
}

} // verus!
