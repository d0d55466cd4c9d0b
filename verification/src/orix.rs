//! The event page of the ORIX Theater for a given month.
use vstd::prelude::*;

verus! {

/// The decimal digits of a natural number, most significant first.
pub open spec fn digits(n: nat) -> Seq<char>
    decreases n,
{
    if n < 10 {
        seq![(48 + n) as char]
    } else {
        digits(n / 10).push((48 + n % 10) as char)
    }
}

/// The decimal text of an integer, with a leading minus sign when it is
/// negative.
pub open spec fn decimal_text(n: int) -> Seq<char> {
    if n < 0 {
        seq!['-'] + digits((-n) as nat)
    } else {
        digits(n as nat)
    }
}

/// The text of a single decimal digit.
fn digit_text(digit: u64) -> (text: &'static str)
    requires
        digit < 10,
    ensures
        text@ == seq![(48 + digit) as char],
{
    match digit {
        0 => {
            proof {
                reveal_strlit("0");
            }
            "0"
        },
        1 => {
            proof {
                reveal_strlit("1");
            }
            "1"
        },
        2 => {
            proof {
                reveal_strlit("2");
            }
            "2"
        },
        3 => {
            proof {
                reveal_strlit("3");
            }
            "3"
        },
        4 => {
            proof {
                reveal_strlit("4");
            }
            "4"
        },
        5 => {
            proof {
                reveal_strlit("5");
            }
            "5"
        },
        6 => {
            proof {
                reveal_strlit("6");
            }
            "6"
        },
        7 => {
            proof {
                reveal_strlit("7");
            }
            "7"
        },
        8 => {
            proof {
                reveal_strlit("8");
            }
            "8"
        },
        _ => {
            proof {
                reveal_strlit("9");
            }
            "9"
        },
    }
}

/// Appends the decimal digits of a number.
fn append_digits(text: &mut String, n: u64)
    ensures
        final(text)@ == old(text)@ + digits(n as nat),
    decreases n,
{
    if n >= 10 {
        append_digits(text, n / 10);
    }
    let ghost before = text@;
    text.append(digit_text(n % 10));
    assert(text@ == before + seq![(48 + n % 10) as char]);
    if n >= 10 {
        assert(digits(n as nat) == digits((n / 10) as nat).push((48 + n % 10) as char));
        assert(text@ =~= old(text)@ + digits(n as nat));
    }
}

/// Appends the decimal text of an integer.
fn append_decimal(text: &mut String, n: i32)
    ensures
        final(text)@ == old(text)@ + decimal_text(n as int),
{
    if n < 0 {
        text.append("-");
        proof {
            reveal_strlit("-");
        }
        let magnitude = (0i64 - n as i64) as u64;
        append_digits(text, magnitude);
        assert(text@ =~= old(text)@ + decimal_text(n as int));
    } else {
        append_digits(text, n as u64);
    }
}

/// The number that a text of decimal digits stands for.
pub open spec fn digits_value(text: Seq<char>) -> int
    decreases text.len(),
{
    if text.len() == 0 {
        0
    } else {
        digits_value(text.drop_last()) * 10 + (text.last() as int - 48)
    }
}

/// A number written the standard way: decimal digits only, at least one,
/// and no leading zero unless the number is zero itself.
pub open spec fn is_plain_number(text: Seq<char>) -> bool {
    &&& text.len() >= 1
    &&& forall|i: int| 0 <= i < text.len() ==> '0' <= #[trigger] text[i] <= '9'
    &&& text.len() > 1 ==> text[0] != '0'
}

/// The text is the standard decimal writing of the integer: its plain
/// number, after a minus sign when it is negative.
pub open spec fn writes_integer(text: Seq<char>, n: int) -> bool {
    if n < 0 {
        &&& text.len() >= 1
        &&& text[0] == '-'
        &&& is_plain_number(text.drop_first())
        &&& digits_value(text.drop_first()) == -n
    } else {
        is_plain_number(text) && digits_value(text) == n
    }
}

/// The digits of a number are its standard decimal writing.
pub proof fn lemma_digits_write_number(n: nat)
    ensures
        is_plain_number(digits(n)),
        digits_value(digits(n)) == n,
        n > 0 ==> digits(n)[0] != '0',
    decreases n,
{
    if n >= 10 {
        lemma_digits_write_number(n / 10);
        let head = digits(n / 10);
        let d = digits(n);
        assert(d == head.push((48 + n % 10) as char));
        assert(d.drop_last() == head);
        assert forall|i: int| 0 <= i < d.len() implies '0' <= #[trigger] d[i] <= '9' by {
            if i < head.len() {
                assert(d[i] == head[i]);
            }
        }
        assert(d[0] == head[0]);
        assert(d.last() == (48 + n % 10) as char);
        assert((48 + n % 10) as char as int == 48 + n % 10);
        assert(digits_value(d) == digits_value(head) * 10 + (d.last() as int - 48));
        assert((n / 10) * 10 + n % 10 == n) by (nonlinear_arith);
    } else {
        assert((48 + n) as char as int == 48 + n);
        assert(digits(n).drop_last() =~= Seq::<char>::empty());
        assert(digits_value(digits(n).drop_last()) == 0);
    }
}

/// The decimal text of an integer is its standard writing.
pub proof fn lemma_decimal_text_writes(n: int)
    ensures
        writes_integer(decimal_text(n), n),
{
    if n < 0 {
        lemma_digits_write_number((-n) as nat);
        assert(decimal_text(n).drop_first() == digits((-n) as nat));
    } else {
        lemma_digits_write_number(n as nat);
    }
}

/// The address of the event page of the ORIX Theater for a year and month.
pub open spec fn event_page(year: int, month: int) -> Seq<char> {
    "https://www.orixtheater.jp/event/?yearId="@ + decimal_text(year) + "&monthId="@
        + decimal_text(month)
}

/// The address of the page that lists the events of the ORIX Theater in a
/// year and month.
pub fn orix_event_url(year: i32, month: u32) -> (url: String)
    ensures
        url@ == event_page(year as int, month as int),
        exists|year_text: Seq<char>, month_text: Seq<char>|
            url@ == "https://www.orixtheater.jp/event/?yearId="@ + year_text + "&monthId="@
                + month_text && #[trigger] writes_integer(year_text, year as int)
                && #[trigger] writes_integer(month_text, month as int),
{
    proof {
        lemma_event_page_writes_date(year as int, month as int);
    }
    let mut url = String::from_str("https://www.orixtheater.jp/event/?yearId=");
    append_decimal(&mut url, year);
    url.append("&monthId=");
    append_digits(&mut url, month as u64);
    assert(url@ =~= event_page(year as int, month as int));
    url
}

/// The event page address is the fixed prefix, the standard decimal writing
/// of the year, `&monthId=`, and the standard decimal writing of the month.
pub proof fn lemma_event_page_writes_date(year: int, month: int)
    ensures
        exists|year_text: Seq<char>, month_text: Seq<char>|
            event_page(year, month) == "https://www.orixtheater.jp/event/?yearId="@ + year_text
                + "&monthId="@ + month_text && #[trigger] writes_integer(year_text, year)
                && #[trigger] writes_integer(month_text, month),
{
    lemma_decimal_text_writes(year);
    lemma_decimal_text_writes(month);
    assert(writes_integer(decimal_text(year), year) && writes_integer(decimal_text(month), month));
}

} // verus!
