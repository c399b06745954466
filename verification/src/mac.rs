//! Link-layer (MAC) address rendering: the declared-length check and
//! the canonical lowercase colon-hex formatting.

use vstd::prelude::*;
use vstd::string::StringExecFns;

verus! {

/// The lowercase hexadecimal character of a nibble value.
pub open spec fn hex_digit(n: u8) -> char
    recommends
        n < 16,
{
    if n == 0 {
        '0'
    } else if n == 1 {
        '1'
    } else if n == 2 {
        '2'
    } else if n == 3 {
        '3'
    } else if n == 4 {
        '4'
    } else if n == 5 {
        '5'
    } else if n == 6 {
        '6'
    } else if n == 7 {
        '7'
    } else if n == 8 {
        '8'
    } else if n == 9 {
        '9'
    } else if n == 10 {
        'a'
    } else if n == 11 {
        'b'
    } else if n == 12 {
        'c'
    } else if n == 13 {
        'd'
    } else if n == 14 {
        'e'
    } else {
        'f'
    }
}

/// The two lowercase hex characters of one byte.
pub open spec fn hex_pair(b: u8) -> Seq<char> {
    seq![hex_digit(b / 16), hex_digit(b % 16)]
}

/// The canonical rendering of the first six bytes as colon-separated
/// lowercase hex pairs, `xx:xx:xx:xx:xx:xx`.
pub open spec fn mac_str_spec(s: Seq<u8>) -> Seq<char>
    recommends
        s.len() >= 6,
{
    hex_pair(s[0]) + seq![':'] + hex_pair(s[1]) + seq![':'] + hex_pair(s[2]) + seq![':'] + hex_pair(
        s[3],
    ) + seq![':'] + hex_pair(s[4]) + seq![':'] + hex_pair(s[5])
}

/// The string literal holding one lowercase hex character.
fn hex_digit_str(n: u8) -> (r: &'static str)
    requires
        n < 16,
    ensures
        r@ == seq![hex_digit(n)],
{
    proof {
        reveal_strlit("0");
        reveal_strlit("1");
        reveal_strlit("2");
        reveal_strlit("3");
        reveal_strlit("4");
        reveal_strlit("5");
        reveal_strlit("6");
        reveal_strlit("7");
        reveal_strlit("8");
        reveal_strlit("9");
        reveal_strlit("a");
        reveal_strlit("b");
        reveal_strlit("c");
        reveal_strlit("d");
        reveal_strlit("e");
        reveal_strlit("f");
    }
    if n == 0 {
        "0"
    } else if n == 1 {
        "1"
    } else if n == 2 {
        "2"
    } else if n == 3 {
        "3"
    } else if n == 4 {
        "4"
    } else if n == 5 {
        "5"
    } else if n == 6 {
        "6"
    } else if n == 7 {
        "7"
    } else if n == 8 {
        "8"
    } else if n == 9 {
        "9"
    } else if n == 10 {
        "a"
    } else if n == 11 {
        "b"
    } else if n == 12 {
        "c"
    } else if n == 13 {
        "d"
    } else if n == 14 {
        "e"
    } else {
        "f"
    }
}

/// Renders the first six bytes of `mac` as lowercase colon-separated
/// hex pairs.
pub fn mac_to_string(mac: &[u8]) -> (r: String)
    requires
        mac@.len() >= 6,
    ensures
        r@ == mac_str_spec(mac@),
{
    proof {
        reveal_strlit(":");
    }
    let mut s = String::new();
    s.append(hex_digit_str(mac[0] / 16));
    s.append(hex_digit_str(mac[0] % 16));
    s.append(":");
    s.append(hex_digit_str(mac[1] / 16));
    s.append(hex_digit_str(mac[1] % 16));
    s.append(":");
    s.append(hex_digit_str(mac[2] / 16));
    s.append(hex_digit_str(mac[2] % 16));
    s.append(":");
    s.append(hex_digit_str(mac[3] / 16));
    s.append(hex_digit_str(mac[3] % 16));
    s.append(":");
    s.append(hex_digit_str(mac[4] / 16));
    s.append(hex_digit_str(mac[4] % 16));
    s.append(":");
    s.append(hex_digit_str(mac[5] / 16));
    s.append(hex_digit_str(mac[5] % 16));
    proof {
        assert(s@ =~= mac_str_spec(mac@));
    }
    s
}

/// The MAC contribution of a link-layer record: the canonical
/// rendering when the declared hardware length is exactly six (an
/// Ethernet address), and nothing for any other declared length.
pub open spec fn mac_of_link(hw_len: u8, hw: [u8; 8]) -> Option<Seq<char>> {
    if hw_len == 6 {
        Some(mac_str_spec(hw@))
    } else {
        None
    }
}

/// Decodes the hardware address of a link-layer record.  A declared
/// length other than six yields nothing: not every link-layer record
/// is Ethernet, and no byte is read past the declared length.
pub fn decode_mac(hw_len: u8, hw: &[u8; 8]) -> (r: Option<String>)
    ensures
        r is Some <==> hw_len == 6,
        r matches Some(s) ==> s@ == mac_str_spec(hw@),
{
    if hw_len == 6 {
        Some(mac_to_string(hw.as_slice()))
    } else {
        None
    }
}

} // verus!
