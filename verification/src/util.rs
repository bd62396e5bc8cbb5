//! Messages about what a reader of tokens expected to find.

use vstd::prelude::*;
use vstd::string::StrSliceExecFns;
use vstd::string::StringExecFns;

verus! {

/// The character of a decimal digit.
pub open spec fn digit(d: nat) -> char {
    if d == 0 {
        '0'
    } else if d == 1 {
        '1'
    } else if d == 2 {
        '2'
    } else if d == 3 {
        '3'
    } else if d == 4 {
        '4'
    } else if d == 5 {
        '5'
    } else if d == 6 {
        '6'
    } else if d == 7 {
        '7'
    } else if d == 8 {
        '8'
    } else {
        '9'
    }
}

/// A number in decimal digits, without leading zeros.
pub open spec fn decimal(n: nat) -> Seq<char>
    decreases n,
{
    if n < 10 {
        seq![digit(n)]
    } else {
        decimal(n / 10).push(digit(n % 10))
    }
}

/// The items, put one after the other with `sep` between them.
pub open spec fn joined(items: Seq<Seq<char>>, sep: Seq<char>) -> Seq<char>
    decreases items.len(),
{
    if items.len() == 0 {
        Seq::empty()
    } else if items.len() == 1 {
        items[0]
    } else {
        joined(items.drop_last(), sep) + sep + items.last()
    }
}

/// The characters of each string.
pub open spec fn texts(v: Seq<&str>) -> Seq<Seq<char>> {
    Seq::new(v.len(), |i: int| v[i]@)
}

pub open spec fn spec_is_vowel(c: char) -> bool {
    c == 'a' || c == 'e' || c == 'i' || c == 'o' || c == 'u'
}

/// A lower-case vowel, before which the article is "an".
#[verifier::when_used_as_spec(spec_is_vowel)]
pub fn is_vowel(c: char) -> (r: bool)
    ensures
        r == spec_is_vowel(c),
{
    c == 'a' || c == 'e' || c == 'i' || c == 'o' || c == 'u'
}

/// What was expected: all alternatives but the last with commas between
/// them, then " or " and the last.
pub open spec fn alternatives(description: Seq<Seq<char>>) -> Seq<char> {
    if description.len() == 0 {
        " or "@
    } else {
        joined(description.drop_last(), ", "@) + " or "@ + description.last()
    }
}

/// The message for something that was expected at `index` and not found.
///
/// It names the alternatives with their article, then what was found in
/// their place, where that is known, and the index.
pub open spec fn expected_message(
    description: Seq<Seq<char>>,
    index: nat,
    found: Option<Seq<char>>,
) -> Seq<char> {
    let what = alternatives(description);
    let an = if is_vowel(what[0]) {
        "an"@
    } else {
        "a"@
    };
    let place = match found {
        Some(f) => ", found \""@ + f + "\" instead. At #"@,
        None => ". At #"@,
    };
    "Expected "@ + an + " "@ + what + place + decimal(index)
}

/// The digit `d` as a string.
fn digit_str(d: usize) -> (r: &'static str)
    requires
        d < 10,
    ensures
        r@ == seq![digit(d as nat)],
{
    proof {
        reveal_strlit("0");
        reveal_strlit("1");
        reveal_strlit("2");
        reveal_strlit("3");
        reveal_strlit("4");
        reveal_strlit("5");
        reveal_strlit("6");
        reveal_strlit("7");
        reveal_strlit("8");
        reveal_strlit("9");
    }
    let r = if d == 0 {
        "0"
    } else if d == 1 {
        "1"
    } else if d == 2 {
        "2"
    } else if d == 3 {
        "3"
    } else if d == 4 {
        "4"
    } else if d == 5 {
        "5"
    } else if d == 6 {
        "6"
    } else if d == 7 {
        "7"
    } else if d == 8 {
        "8"
    } else {
        "9"
    };
    assert(r@ =~= seq![digit(d as nat)]);
    r
}

/// Writes a number in decimal digits.
pub fn decimal_string(n: usize) -> (r: String)
    ensures
        r@ == decimal(n as nat),
    decreases n,
{
    if n < 10 {
        String::from_str(digit_str(n))
    } else {
        let r = decimal_string(n / 10).concat(digit_str(n % 10));
        assert(r@ =~= decimal(n as nat));
        r
    }
}

/// Makes the message for something that was expected at `index` and not
/// found there: "Expected", the article, the alternatives, what was found in
/// their place where `found` says so, and the index.
pub fn expected(description: Vec<&str>, index: usize, found: Option<&str>) -> (message: String)
    ensures
        message@ == expected_message(
            texts(description@),
            index as nat,
            match found {
                Some(f) => Some(f@),
                None => None,
            },
        ),
{
    let mut description = description;
    let ghost all = texts(description@);
    let last: &str = match description.pop() {
        Some(l) => l,
        None => "",
    };
    proof {
        reveal_strlit("");
        reveal_strlit(" or ");
        reveal_strlit(", ");
    }
    let ghost head = texts(description@);
    let mut what = String::from_str("");
    let mut i: usize = 0;
    while i < description.len()
        invariant
            i <= description@.len(),
            head == texts(description@),
            what@ == joined(head.subrange(0, i as int), ", "@),
        decreases description@.len() - i,
    {
        proof {
            assert(head.subrange(0, i + 1).drop_last() =~= head.subrange(0, i as int));
            assert(head.subrange(0, i + 1).last() == description@[i as int]@);
        }
        if i > 0 {
            what.append(", ");
        }
        what.append(description[i]);
        proof {
            assert(what@ =~= joined(head.subrange(0, i + 1), ", "@));
        }
        i += 1;
    }
    proof {
        assert(head.subrange(0, i as int) =~= head);
        if all.len() > 0 {
            assert(head =~= all.drop_last());
        }
    }
    what.append(" or ");
    what.append(last);
    assert(what@ =~= alternatives(all));
    assert(what@.len() >= 4);
    let an = if is_vowel(what.as_str().get_char(0)) {
        "an"
    } else {
        "a"
    };
    let mut message = String::from_str("Expected ");
    message.append(an);
    message.append(" ");
    message.append(what.as_str());
    match found {
        Some(f) => {
            message.append(", found \"");
            message.append(f);
            message.append("\" instead. At #");
        },
        None => {
            message.append(". At #");
        },
    }
    message.append(decimal_string(index).as_str());
    proof {
        assert(message@ =~= expected_message(
            all,
            index as nat,
            match found {
                Some(f) => Some(f@),
                None => None,
            },
        ));
    }
    message
}

} // verus!
