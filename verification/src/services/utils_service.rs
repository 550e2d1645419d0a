use vstd::prelude::*;
use crate::services::random::choose_byte;
use crate::utils::text::push_char;

verus! {

/// The special symbols a generated password may draw from.
pub open spec fn is_special_symbol(c: char) -> bool {
    c == '!' || c == '?' || c == '@' || c == '#' || c == '$' || c == '%' || c == '^' || c == '&'
        || c == '|' || c == '*' || c == '_' || c == '-' || c == '+' || c == '/' || c == '=' || c
        == '<' || c == '>' || c == '(' || c == ')' || c == '{' || c == '}' || c == '[' || c == ']'
}

/// Whether `c` belongs to one of the character classes that were asked for.
pub open spec fn in_charset(
    c: char,
    include_special_symbols: bool,
    include_numbers: bool,
    include_uppercase: bool,
    include_lowercase: bool,
) -> bool {
    ||| include_lowercase && 'a' <= c && c <= 'z'
    ||| include_uppercase && 'A' <= c && c <= 'Z'
    ||| include_numbers && '0' <= c && c <= '9'
    ||| include_special_symbols && is_special_symbol(c)
}

fn push_range(charset: &mut Vec<u8>, first: u8, last: u8)
    requires
        first <= last < 128,
    ensures
        final(charset)@.len() == old(charset)@.len() + (last - first + 1),
        forall|k: int| 0 <= k < old(charset)@.len() ==> final(charset)@[k] == old(charset)@[k],
        forall|k: int|
            old(charset)@.len() <= k < final(charset)@.len() ==> first <= #[trigger] final(charset)@[k]
                <= last,
{
    let mut b = first;
    loop
        invariant_except_break
            charset@.len() == old(charset)@.len() + (b - first),
        invariant
            first <= b <= last < 128,
            forall|k: int| 0 <= k < old(charset)@.len() ==> charset@[k] == old(charset)@[k],
            forall|k: int|
                old(charset)@.len() <= k < charset@.len() ==> first <= #[trigger] charset@[k]
                    <= last,
        ensures
            charset@.len() == old(charset)@.len() + (last - first + 1),
            forall|k: int| 0 <= k < old(charset)@.len() ==> charset@[k] == old(charset)@[k],
            forall|k: int|
                old(charset)@.len() <= k < charset@.len() ==> first <= #[trigger] charset@[k]
                    <= last,
        decreases last - b,
    {
        charset.push(b);
        if b == last {
            break ;
        }
        b += 1;
    }
}

fn push_special_symbols(charset: &mut Vec<u8>)
    ensures
        final(charset)@.len() == old(charset)@.len() + 23,
        forall|k: int| 0 <= k < old(charset)@.len() ==> final(charset)@[k] == old(charset)@[k],
        forall|k: int|
            old(charset)@.len() <= k < final(charset)@.len() ==> is_special_symbol(
                #[trigger] final(charset)@[k] as char,
            ),
{
    charset.push(33);
    charset.push(63);
    charset.push(64);
    charset.push(35);
    charset.push(36);
    charset.push(37);
    charset.push(94);
    charset.push(38);
    charset.push(124);
    charset.push(42);
    charset.push(95);
    charset.push(45);
    charset.push(43);
    charset.push(47);
    charset.push(61);
    charset.push(60);
    charset.push(62);
    charset.push(40);
    charset.push(41);
    charset.push(123);
    charset.push(125);
    charset.push(91);
    charset.push(93);
}

/// Generates a password of `length` characters, each drawn at random from
/// the classes asked for. With no class asked for, the password is empty.
pub fn generate_password(
    length: usize,
    include_special_symbols: bool,
    include_numbers: bool,
    include_uppercase: bool,
    include_lowercase: bool,
) -> (password: String)
    ensures
        !(include_special_symbols || include_numbers || include_uppercase || include_lowercase)
            ==> password@.len() == 0,
        include_special_symbols || include_numbers || include_uppercase || include_lowercase
            ==> password@.len() == length,
        forall|i: int|
            0 <= i < password@.len() ==> in_charset(
                #[trigger] password@[i],
                include_special_symbols,
                include_numbers,
                include_uppercase,
                include_lowercase,
            ),
{
    let mut charset: Vec<u8> = Vec::new();
    if include_lowercase {
        push_range(&mut charset, 97, 122);
    }
    if include_uppercase {
        push_range(&mut charset, 65, 90);
    }
    if include_numbers {
        push_range(&mut charset, 48, 57);
    }
    if include_special_symbols {
        push_special_symbols(&mut charset);
    }
    let mut password = String::new();
    if charset.len() == 0 {
        return password;
    }
    assert(forall|k: int|
        0 <= k < charset@.len() ==> in_charset(
            #[trigger] charset@[k] as char,
            include_special_symbols,
            include_numbers,
            include_uppercase,
            include_lowercase,
        ));
    let mut rng = rand::thread_rng();
    let mut i: usize = 0;
    while i < length
        invariant
            i <= length,
            charset@.len() > 0,
            password@.len() == i,
            forall|k: int|
                0 <= k < charset@.len() ==> in_charset(
                    #[trigger] charset@[k] as char,
                    include_special_symbols,
                    include_numbers,
                    include_uppercase,
                    include_lowercase,
                ),
            forall|k: int|
                0 <= k < password@.len() ==> in_charset(
                    #[trigger] password@[k],
                    include_special_symbols,
                    include_numbers,
                    include_uppercase,
                    include_lowercase,
                ),
        decreases length - i,
    {
        match choose_byte(charset.as_slice(), &mut rng) {
            Some(b) => {
                assert(exists|k: int| 0 <= k < charset@.len() && charset@[k] == b);
                push_char(&mut password, b as char);
            },
            None => {
                assert(false);
            },
        }
        i += 1;
    }
    password
}

} // verus!
