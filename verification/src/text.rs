//! The messages the game writes, built from names and numbers.
use vstd::prelude::*;

verus! {

/// The character of decimal digit `d`.
pub open spec fn digit_char(d: int) -> char {
    (d + 48) as char
}

/// The decimal digits of `n`, most significant first, without leading zeros.
pub open spec fn digits(n: nat) -> Seq<char>
    decreases n,
{
    if n < 10 {
        seq![digit_char(n as int)]
    } else {
        digits(n / 10) + seq![digit_char((n % 10) as int)]
    }
}

/// How `n` is written in decimal: a minus sign when negative, then its digits.
pub open spec fn decimal(n: int) -> Seq<char> {
    if n < 0 {
        seq!['-'] + digits((-n) as nat)
    } else {
        digits(n as nat)
    }
}

/// `n` written in decimal, as `Display` writes an `i32`.
#[verifier::external_body]
fn decimal_string(n: i32) -> (s: String)
    ensures
        s@ == decimal(n as int),
{
    n.to_string()
}

/// The message of an attack that does no harm.
pub open spec fn unable_to_hurt_text(attacker: Seq<char>, target: Seq<char>) -> Seq<char> {
    attacker + " is unable to hurt "@ + target
}

/// The message of an attack that deals `damage`.
pub open spec fn hits_text(attacker: Seq<char>, target: Seq<char>, damage: int) -> Seq<char> {
    attacker + " hits "@ + target + ", for "@ + decimal(damage) + " hp"@
}

/// The message of the player picking up an item.
pub open spec fn pick_up_text(item: Seq<char>) -> Seq<char> {
    "You pick up the "@ + item + "."@
}

/// The message of the player eating a healing herb.
pub open spec fn invigorates_text(item: Seq<char>, heal: int) -> Seq<char> {
    "The "@ + item + " invigorates you, healing "@ + decimal(heal) + " health."@
}

/// The message of the player dropping an item.
pub open spec fn drop_text(item: Seq<char>) -> Seq<char> {
    "You drop the "@ + item + "."@
}

/// "<attacker> is unable to hurt <target>"
pub fn unable_to_hurt(attacker: &String, target: &String) -> (s: String)
    ensures
        s@ == unable_to_hurt_text(attacker@, target@),
{
    let mut s = attacker.clone();
    s.append(" is unable to hurt ");
    s.append(target.as_str());
    s
}

/// "<attacker> hits <target>, for <damage> hp"
pub fn hits(attacker: &String, target: &String, damage: i32) -> (s: String)
    ensures
        s@ == hits_text(attacker@, target@, damage as int),
{
    let mut s = attacker.clone();
    s.append(" hits ");
    s.append(target.as_str());
    s.append(", for ");
    let d = decimal_string(damage);
    s.append(d.as_str());
    s.append(" hp");
    s
}

/// "You pick up the <item>."
pub fn pick_up(item: &String) -> (s: String)
    ensures
        s@ == pick_up_text(item@),
{
    let mut s = String::from_str("You pick up the ");
    s.append(item.as_str());
    s.append(".");
    s
}

/// "The <item> invigorates you, healing <heal> health."
pub fn invigorates(item: &String, heal: i32) -> (s: String)
    ensures
        s@ == invigorates_text(item@, heal as int),
{
    let mut s = String::from_str("The ");
    s.append(item.as_str());
    s.append(" invigorates you, healing ");
    let d = decimal_string(heal);
    s.append(d.as_str());
    s.append(" health.");
    s
}

/// "You drop the <item>."
pub fn drop_message(item: &String) -> (s: String)
    ensures
        s@ == drop_text(item@),
{
    let mut s = String::from_str("You drop the ");
    s.append(item.as_str());
    s.append(".");
    s
}

} // verus!
