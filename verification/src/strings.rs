//! String exercises: ASCII capitalisation, Pig Latin, and a song.

use vstd::prelude::*;
use vstd::string::{StrSliceExecFns, StringExecFns};

verus! {

/// The uppercase counterpart of an ASCII lowercase letter; any other
/// character is left as it is.
pub open spec fn upper_char(c: char) -> char {
    if 'a' <= c && c <= 'z' {
        (((c as u32) - 32) as u8) as char
    } else {
        c
    }
}

/// The one-character string of the uppercase counterpart of an ASCII
/// lowercase letter.
fn upper_str(c: char) -> (s: &'static str)
    requires
        'a' <= c && c <= 'z',
    ensures
        s@ == seq![upper_char(c)],
{
    proof {
        reveal_strlit("A");
        reveal_strlit("B");
        reveal_strlit("C");
        reveal_strlit("D");
        reveal_strlit("E");
        reveal_strlit("F");
        reveal_strlit("G");
        reveal_strlit("H");
        reveal_strlit("I");
        reveal_strlit("J");
        reveal_strlit("K");
        reveal_strlit("L");
        reveal_strlit("M");
        reveal_strlit("N");
        reveal_strlit("O");
        reveal_strlit("P");
        reveal_strlit("Q");
        reveal_strlit("R");
        reveal_strlit("S");
        reveal_strlit("T");
        reveal_strlit("U");
        reveal_strlit("V");
        reveal_strlit("W");
        reveal_strlit("X");
        reveal_strlit("Y");
        reveal_strlit("Z");
    }
    match c {
        'a' => "A",
        'b' => "B",
        'c' => "C",
        'd' => "D",
        'e' => "E",
        'f' => "F",
        'g' => "G",
        'h' => "H",
        'i' => "I",
        'j' => "J",
        'k' => "K",
        'l' => "L",
        'm' => "M",
        'n' => "N",
        'o' => "O",
        'p' => "P",
        'q' => "Q",
        'r' => "R",
        's' => "S",
        't' => "T",
        'u' => "U",
        'v' => "V",
        'w' => "W",
        'x' => "X",
        'y' => "Y",
        _ => "Z",
    }
}

/// Capitalizes English letters, leaving the other characters intact.
pub fn capitalize(input: String) -> (r: String)
    ensures
        r@ == input@.map_values(|c: char| upper_char(c)),
{
    let n = input.as_str().unicode_len();
    let mut r = String::new();
    let mut i: usize = 0;
    while i < n
        invariant
            n == input@.len(),
            i <= n,
            r@ == input@.take(i as int).map_values(|c: char| upper_char(c)),
        decreases n - i,
    {
        let c = input.as_str().get_char(i);
        let cp = c as u32;
        if 97 <= cp && cp <= 122 {
            r.append(upper_str(c));
        } else {
            let one = input.as_str().substring_char(i, i + 1);
            proof {
                assert(one@ =~= seq![input@[i as int]]);
            }
            r.append(one);
        }
        proof {
            assert(input@.take(i as int + 1).map_values(|c: char| upper_char(c)) =~= input@.take(
                i as int,
            ).map_values(|c: char| upper_char(c)) + seq![upper_char(input@[i as int])]);
        }
        i = i + 1;
    }
    proof {
        assert(input@.take(n as int) =~= input@);
    }
    r
}

/// The five vowels.
pub open spec fn is_vowel(c: char) -> bool {
    c == 'a' || c == 'e' || c == 'i' || c == 'o' || c == 'u'
}

/// The index of the first vowel at or after `i`, or the length when there is
/// none.
pub open spec fn first_vowel(s: Seq<char>, i: int) -> int
    decreases s.len() - i when 0 <= i <= s.len()
{
    if i < s.len() {
        if is_vowel(s[i]) {
            i
        } else {
            first_vowel(s, i + 1)
        }
    } else {
        i
    }
}

proof fn lemma_first_vowel(s: Seq<char>, i: int)
    requires
        0 <= i <= s.len(),
    ensures
        i <= first_vowel(s, i) <= s.len(),
        first_vowel(s, i) < s.len() ==> is_vowel(s[first_vowel(s, i)]),
        forall|j: int| i <= j < first_vowel(s, i) ==> !is_vowel(s[j]),
    decreases s.len() - i,
{
    if i < s.len() && !is_vowel(s[i]) {
        lemma_first_vowel(s, i + 1);
    }
}

/// The Pig Latin form of a lowercase word: a word that starts with a vowel
/// gets `hay` appended; otherwise the leading consonants, up to the first
/// vowel, move to the end and `ay` is appended.
pub open spec fn piglatin_spec(s: Seq<char>) -> Seq<char> {
    let v = first_vowel(s, 0);
    if v == 0 {
        s + seq!['h', 'a', 'y']
    } else {
        s.subrange(v, s.len() as int) + s.subrange(0, v) + seq!['a', 'y']
    }
}

/// Converts a word to Pig Latin. The word must consist of lowercase English
/// letters and contain at least one vowel.
pub fn piglatin(input: String) -> (r: String)
    requires
        forall|i: int| 0 <= i < input@.len() ==> 'a' <= #[trigger] input@[i] && input@[i] <= 'z',
        exists|i: int| 0 <= i < input@.len() && is_vowel(#[trigger] input@[i]),
    ensures
        r@ == piglatin_spec(input@),
{
    let n = input.as_str().unicode_len();
    let mut v: usize = 0;
    proof {
        lemma_first_vowel(input@, 0);
        // There is a vowel, so the scan stops before the end.
        if first_vowel(input@, 0) == input@.len() {
            let w = choose|i: int| 0 <= i < input@.len() && is_vowel(#[trigger] input@[i]);
            assert(!is_vowel(input@[w]));
        }
    }
    loop
        invariant
            n == input@.len(),
            0 <= v <= n,
            first_vowel(input@, 0) == first_vowel(input@, v as int),
            first_vowel(input@, 0) < n,
        ensures
            v as int == first_vowel(input@, 0),
            v < n,
        decreases n - v,
    {
        proof {
            lemma_first_vowel(input@, v as int);
        }
        if v >= n {
            proof {
                assert(false);
            }
        }
        let c = input.as_str().get_char(v);
        if c == 'a' || c == 'e' || c == 'i' || c == 'o' || c == 'u' {
            break;
        }
        v = v + 1;
    }
    if v == 0 {
        proof {
            reveal_strlit("hay");
            assert(("hay")@ =~= seq!['h', 'a', 'y']);
        }
        input.concat("hay")
    } else {
        let tail = input.as_str().substring_char(v, n);
        let head = input.as_str().substring_char(0, v);
        proof {
            reveal_strlit("ay");
            assert(("ay")@ =~= seq!['a', 'y']);
        }
        let r = tail.to_owned().concat(head).concat("ay");
        proof {
            assert(r@ =~= piglatin_spec(input@));
        }
        r
    }
}

/// The full lyrics of "The Twelve Days of Christmas".
pub const LYRICS: &'static str = r#"On the first day of Christmas, my true love sent to me
A partridge in a pear tree

On the second day of Christmas, my true love sent to me
Two turtledoves
And a partridge in a pear tree

On the third day of Christmas, my true love sent to me
Three French hens
Two turtledoves
And a partridge in a pear tree

On the fourth day of Christmas, my true love sent to me
Four calling birds
Three French hens
Two turtledoves
And a partridge in a pear tree

On the fifth day of Christmas, my true love sent to me
Five gold rings (five golden rings)
Four calling birds
Three French hens
Two turtledoves
And a partridge in a pear tree

On the sixth day of Christmas, my true love sent to me
Six geese a-laying
Five gold rings (five golden rings)
Four calling birds
Three French hens
Two turtledoves
And a partridge in a pear tree

On the seventh day of Christmas, my true love sent to me
Seven swans a-swimming
Six geese a-laying
Five gold rings (five golden rings)
Four calling birds
Three French hens
Two turtledoves
And a partridge in a pear tree

On the eighth day of Christmas, my true love sent to me
Eight maids a-milking
Seven swans a-swimming
Six geese a-laying
Five gold rings (five golden rings)
Four calling birds
Three French hens
Two turtledoves
And a partridge in a pear tree

On the ninth day of Christmas, my true love sent to me
Nine ladies dancing
Eight maids a-milking
Seven swans a-swimming
Six geese a-laying
Five gold rings (five golden rings)
Four calling birds
Three French hens
Two turtledoves
And a partridge in a pear tree

On the tenth day of Christmas, my true love sent to me
Ten lords a-leaping
Nine ladies dancing
Eight maids a-milking
Seven swans a-swimming
Six geese a-laying
Five gold rings (five golden rings)
Four calling birds
Three French hens
Two turtledoves
And a partridge in a pear tree

On the eleventh day of Christmas, my true love sent to me
I sent eleven pipers piping
Ten lords a-leaping
Nine ladies dancing
Eight maids a-milking
Seven swans a-swimming
Six geese a-laying
Five gold rings (five golden rings)
Four calling birds
Three French hens
Two turtledoves
And a partridge in a pear tree

On the twelfth day of Christmas, my true love sent to me
Twelve drummers drumming
Eleven pipers piping
Ten lords a-leaping
Nine ladies dancing
Eight maids a-milking
Seven swans a-swimming
Six geese a-laying
Five gold rings (five golden rings)
Four calling birds
Three French hens
Two turtledoves
And a partridge in a pear tree

And a partridge in a pear tree
"#;

/// Writes down the lyrics of "The Twelve Days of Christmas".
pub fn twelve_days_of_christmas_lyrics() -> (r: String)
    ensures
        r@ == LYRICS@,
{
    String::from_str(LYRICS)
}

} // verus!
