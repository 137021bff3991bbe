//! The score and the text that displays it.

use vstd::prelude::*;

verus! {

/// The character of a decimal digit.
pub open spec fn digit_char(d: nat) -> char {
    if d == 0 {
        '0'
    } else if d == 1 {
        '1'
    } else if d == 2 {
        '2'
    } else if d == 3 {
        '3'
    } else if d == 4 {
        '4'
    } else if d == 5 {
        '5'
    } else if d == 6 {
        '6'
    } else if d == 7 {
        '7'
    } else if d == 8 {
        '8'
    } else {
        '9'
    }
}

/// The decimal notation of `n`, most significant digit first, no leading zero.
pub open spec fn decimal(n: nat) -> Seq<char>
    decreases n,
{
    if n < 10 {
        seq![digit_char(n)]
    } else {
        decimal(n / 10).push(digit_char(n % 10))
    }
}

/// The text of the score display.
pub open spec fn stats_text_view(player_deaths: nat, goblin_kills: nat) -> Seq<char> {
    "Player Deaths: "@ + decimal(player_deaths) + "\n Goblin Kills: "@ + decimal(goblin_kills)
}

/// The score shown in the corner of the screen.
pub struct GameScore {
    pub player_deaths: u32,
    pub goblin_kills: u32,
}

impl GameScore {
    /// A score with no deaths and no kills.
    pub fn new() -> (score: GameScore)
        ensures
            score.player_deaths == 0,
            score.goblin_kills == 0,
    {
        GameScore { player_deaths: 0, goblin_kills: 0 }
    }

    /// Credits `count` goblins killed by darts.
    pub fn add_goblin_kills(&mut self, count: usize)
        requires
            old(self).goblin_kills + count <= u32::MAX,
        ensures
            final(self).goblin_kills == old(self).goblin_kills + count,
            final(self).player_deaths == old(self).player_deaths,
    {
        self.goblin_kills = self.goblin_kills + count as u32;
    }

    /// Counts `count` deaths of the player, one for each goblin that reached it.
    pub fn add_player_deaths(&mut self, count: usize)
        requires
            old(self).player_deaths + count <= u32::MAX,
        ensures
            final(self).player_deaths == old(self).player_deaths + count,
            final(self).goblin_kills == old(self).goblin_kills,
    {
        self.player_deaths = self.player_deaths + count as u32;
    }

    /// The text of the score display: `Player Deaths: <deaths>\n Goblin Kills: <kills>`.
    pub fn stats_text(&self) -> (text: String)
        ensures
            text@ == stats_text_view(self.player_deaths as nat, self.goblin_kills as nat),
    {
        let mut text = String::from_str("Player Deaths: ");
        append_decimal(&mut text, self.player_deaths);
        text.append("\n Goblin Kills: ");
        append_decimal(&mut text, self.goblin_kills);
        proof {
            assert(text@ =~= stats_text_view(self.player_deaths as nat, self.goblin_kills as nat));
        }
        text
    }
}

impl Default for GameScore {
    fn default() -> (score: GameScore)
        ensures
            score.player_deaths == 0,
            score.goblin_kills == 0,
    {
        GameScore::new()
    }
}

/// The one-character string of the decimal digit `d`.
fn digit_str(d: u32) -> (s: &'static str)
    requires
        d < 10,
    ensures
        s@ == seq![digit_char(d as nat)],
{
    if d == 0 {
        proof { reveal_strlit("0"); }
        "0"
    } else if d == 1 {
        proof { reveal_strlit("1"); }
        "1"
    } else if d == 2 {
        proof { reveal_strlit("2"); }
        "2"
    } else if d == 3 {
        proof { reveal_strlit("3"); }
        "3"
    } else if d == 4 {
        proof { reveal_strlit("4"); }
        "4"
    } else if d == 5 {
        proof { reveal_strlit("5"); }
        "5"
    } else if d == 6 {
        proof { reveal_strlit("6"); }
        "6"
    } else if d == 7 {
        proof { reveal_strlit("7"); }
        "7"
    } else if d == 8 {
        proof { reveal_strlit("8"); }
        "8"
    } else {
        proof { reveal_strlit("9"); }
        "9"
    }
}

/// Appends the decimal notation of `n` to `text`.
fn append_decimal(text: &mut String, n: u32)
    ensures
        final(text)@ == old(text)@ + decimal(n as nat),
    decreases n,
{
    if n >= 10 {
        append_decimal(text, n / 10);
    }
    text.append(digit_str(n % 10));
    proof {
        assert(text@ =~= old(text)@ + decimal(n as nat));
    }
}

/// The character stands for a decimal digit.
pub open spec fn is_digit(c: char) -> bool {
    '0' <= c <= '9'
}

/// Decimal notation uses digits only, and at least one of them.
proof fn lemma_decimal_digits(n: nat)
    ensures
        decimal(n).len() >= 1,
        n >= 10 ==> decimal(n).len() >= 2,
        forall|i: int| 0 <= i < decimal(n).len() ==> is_digit(#[trigger] decimal(n)[i]),
    decreases n,
{
    if n >= 10 {
        lemma_decimal_digits(n / 10);
    }
}

/// Different digits are different characters.
proof fn lemma_digit_char_injective(x: nat, y: nat)
    requires
        x < 10,
        y < 10,
        digit_char(x) == digit_char(y),
    ensures
        x == y,
{
}

/// Two numbers with the same decimal notation are equal.
proof fn lemma_decimal_injective(a: nat, b: nat)
    requires
        decimal(a) == decimal(b),
    ensures
        a == b,
    decreases a,
{
    lemma_decimal_digits(a);
    lemma_decimal_digits(b);
    if a >= 10 && b >= 10 {
        assert(decimal(a / 10) =~= decimal(a).drop_last());
        assert(decimal(b / 10) =~= decimal(b).drop_last());
        assert(decimal(a).last() == digit_char(a % 10));
        assert(decimal(b).last() == digit_char(b % 10));
        lemma_digit_char_injective(a % 10, b % 10);
        lemma_decimal_injective(a / 10, b / 10);
    } else if a < 10 && b < 10 {
        assert(decimal(a)[0] == digit_char(a));
        assert(decimal(b)[0] == digit_char(b));
        lemma_digit_char_injective(a, b);
    }
}

/// The value of a digit character: its distance from `'0'` in the character set.
pub open spec fn digit_value(c: char) -> int {
    (c as int) - ('0' as int)
}

/// The number that a string of decimal digits stands for, read most
/// significant digit first.
pub open spec fn read_decimal(digits: Seq<char>) -> int
    decreases digits.len(),
{
    if digits.len() == 0 {
        0
    } else {
        read_decimal(digits.drop_last()) * 10 + digit_value(digits.last())
    }
}

/// `digits` is the standard base-10 notation of `n`: at least one digit, only
/// the characters `'0'` to `'9'`, no leading zero, and read back it gives `n`.
pub open spec fn is_notation_of(digits: Seq<char>, n: nat) -> bool {
    &&& digits.len() >= 1
    &&& forall|i: int| 0 <= i < digits.len() ==> '0' <= #[trigger] digits[i] <= '9'
    &&& (digits.len() > 1 ==> digits[0] != '0')
    &&& read_decimal(digits) == n
}

/// The digits shown for a count are its standard decimal notation: read back,
/// they give the count.
pub proof fn law_decimal_reads_back(n: nat)
    ensures
        is_notation_of(decimal(n), n),
    decreases n,
{
    lemma_decimal_digits(n);
    if n >= 10 {
        law_decimal_reads_back(n / 10);
        lemma_decimal_digits(n / 10);
        let d = decimal(n);
        assert(d.drop_last() =~= decimal(n / 10));
        assert(d[0] == decimal(n / 10)[0]);
        if n / 10 < 10 {
            assert(decimal(n / 10)[0] == digit_char(n / 10));
            assert(d[0] != '0');
        }
        assert forall|i: int| 0 <= i < d.len() implies '0' <= #[trigger] d[i] <= '9' by {
            if i < d.len() - 1 {
                assert(d[i] == decimal(n / 10)[i]);
            }
        }
        let m = n % 10;
        assert(digit_value(digit_char(m)) == m) by {
            assert(m < 10);
        }
        assert(read_decimal(d) == read_decimal(decimal(n / 10)) * 10 + digit_value(d.last()));
    } else {
        assert(digit_value(digit_char(n)) == n);
        assert(read_decimal(decimal(n).drop_last()) == 0) by {
            assert(decimal(n).drop_last().len() == 0);
        }
    }
}

/// The score display reads `Player Deaths: `, then the decimal notation of the
/// deaths, then a line break and ` Goblin Kills: `, then the decimal notation
/// of the kills.
pub proof fn law_display_shows_counts(player_deaths: nat, goblin_kills: nat)
    ensures
        exists|deaths_digits: Seq<char>, kills_digits: Seq<char>|
            #![trigger is_notation_of(deaths_digits, player_deaths), is_notation_of(kills_digits, goblin_kills)]
            {
                &&& is_notation_of(deaths_digits, player_deaths)
                &&& is_notation_of(kills_digits, goblin_kills)
                &&& stats_text_view(player_deaths, goblin_kills) == "Player Deaths: "@ + deaths_digits
                    + "\n Goblin Kills: "@ + kills_digits
            },
{
    law_decimal_reads_back(player_deaths);
    law_decimal_reads_back(goblin_kills);
    assert(is_notation_of(decimal(player_deaths), player_deaths));
    assert(is_notation_of(decimal(goblin_kills), goblin_kills));
}

/// The score display tells the score: two scores that show the same text have
/// the same number of deaths and the same number of kills.
pub proof fn law_display_tells_score(deaths1: nat, kills1: nat, deaths2: nat, kills2: nat)
    requires
        stats_text_view(deaths1, kills1) == stats_text_view(deaths2, kills2),
    ensures
        deaths1 == deaths2,
        kills1 == kills2,
{
    let head = "Player Deaths: "@;
    let middle = "\n Goblin Kills: "@;
    reveal_strlit("\n Goblin Kills: ");
    let d1 = decimal(deaths1);
    let d2 = decimal(deaths2);
    let t1 = stats_text_view(deaths1, kills1);
    let t2 = stats_text_view(deaths2, kills2);
    lemma_decimal_digits(deaths1);
    lemma_decimal_digits(deaths2);
    assert(t1 =~= head + (d1 + middle + decimal(kills1)));
    assert(t2 =~= head + (d2 + middle + decimal(kills2)));
    let rest1 = d1 + middle + decimal(kills1);
    let rest2 = d2 + middle + decimal(kills2);
    assert(rest1 =~= t1.skip(head.len() as int));
    assert(rest2 =~= t2.skip(head.len() as int));
    assert(rest1 == rest2);
    if d1.len() < d2.len() {
        assert(rest1[d1.len() as int] == '\n');
        assert(rest2[d1.len() as int] == d2[d1.len() as int]);
        assert(is_digit(d2[d1.len() as int]));
        assert(false);
    }
    if d2.len() < d1.len() {
        assert(rest2[d2.len() as int] == '\n');
        assert(rest1[d2.len() as int] == d1[d2.len() as int]);
        assert(is_digit(d1[d2.len() as int]));
        assert(false);
    }
    assert(d1 =~= rest1.take(d1.len() as int));
    assert(d2 =~= rest2.take(d2.len() as int));
    lemma_decimal_injective(deaths1, deaths2);
    assert(decimal(kills1) =~= rest1.skip((d1.len() + middle.len()) as int));
    assert(decimal(kills2) =~= rest2.skip((d2.len() + middle.len()) as int));
    lemma_decimal_injective(kills1, kills2);
}

} // verus!
