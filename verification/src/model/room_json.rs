//! The JSON text of rooms, as the room manager answers a room creation with it.
use vstd::prelude::*;
use vstd::string::*;
use crate::external::{json_string, json_quoted};
use crate::model::room::{Room, RoomView, users_view};
use crate::mvc::payload::{UserData, UserDataView};
use crate::text::opt_view;

verus! {

/// The decimal digit for `n`, which is below 10.
pub open spec fn digit_char(n: nat) -> char {
    (('0' as nat) + n) as char
}

/// The decimal digits of `n`, without leading zeros.
pub open spec fn decimal(n: nat) -> Seq<char>
    decreases n,
{
    if n < 10 {
        seq![digit_char(n)]
    } else {
        decimal(n / 10).push(digit_char(n % 10))
    }
}

/// The number that a run of decimal digits reads as.
pub open spec fn digits_value(s: Seq<char>) -> int
    decreases s.len(),
{
    if s.len() == 0 {
        0
    } else {
        digits_value(s.drop_last()) * 10 + ((s.last() as int) - ('0' as int))
    }
}

/// Every character of `s` is a decimal digit.
pub open spec fn all_digits(s: Seq<char>) -> bool {
    forall|i: int| 0 <= i < s.len() ==> '0' <= #[trigger] s[i] <= '9'
}

/// The text written for a number reads back as that number: it is a non-empty run of decimal
/// digits, without a leading zero unless the number is zero, whose value is the number.
pub proof fn lemma_decimal_reads_back(n: nat)
    ensures
        decimal(n).len() >= 1,
        all_digits(decimal(n)),
        digits_value(decimal(n)) == n,
        decimal(n)[0] == '0' ==> n == 0,
    decreases n,
{
    if n < 10 {
        assert(decimal(n).drop_last() =~= Seq::<char>::empty());
        assert(digit_char(n) as int == ('0' as int) + n);
        assert(digits_value(Seq::<char>::empty()) == 0);
        assert(digits_value(decimal(n)) == digits_value(decimal(n).drop_last()) * 10 + ((decimal(n).last() as int) - ('0' as int)));
    } else {
        lemma_decimal_reads_back(n / 10);
        let d = decimal(n / 10);
        assert(decimal(n).drop_last() =~= d);
        assert(decimal(n)[0] == d[0]);
        assert(digits_value(decimal(n)) == digits_value(d) * 10 + (n % 10));
        assert((n / 10) * 10 + n % 10 == n) by (nonlinear_arith);
    }
}

/// An optional string in JSON: `null`, or the string quoted.
pub open spec fn json_opt_string(s: Option<Seq<char>>) -> Seq<char> {
    match s {
        Some(v) => json_quoted(v),
        None => "null"@,
    }
}


/// An optional number in JSON: `null`, or its decimal digits.
pub open spec fn json_opt_number(n: Option<u32>) -> Seq<char> {
    match n {
        Some(v) => decimal(v as nat),
        None => "null"@,
    }
}

/// The items separated by commas.
pub open spec fn comma_joined(items: Seq<Seq<char>>) -> Seq<char>
    decreases items.len(),
{
    if items.len() == 0 {
        Seq::empty()
    } else if items.len() == 1 {
        items[0]
    } else {
        comma_joined(items.drop_last()) + ","@ + items.last()
    }
}

/// A JSON array of the items.
pub open spec fn json_array(items: Seq<Seq<char>>) -> Seq<char> {
    "["@ + comma_joined(items) + "]"@
}

/// A user as a JSON object, its fields in their declared order.
pub open spec fn user_json(u: UserDataView) -> Seq<char> {
    "{\"room_name\":"@ + json_opt_string(u.room_name) + ",\"user_id\":"@ + json_opt_string(u.user_id)
        + ",\"x\":"@ + json_opt_number(u.x) + ",\"y\":"@ + json_opt_number(u.y) + "}"@
}


/// Users as a JSON array.
pub open spec fn users_json(us: Seq<UserDataView>) -> Seq<char> {
    json_array(us.map_values(|u: UserDataView| user_json(u)))
}

/// A room as a JSON object, its fields in their declared order.
pub open spec fn room_json(r: RoomView) -> Seq<char> {
    "{\"name\":"@ + json_opt_string(r.name) + ",\"password\":"@ + json_opt_string(r.password)
        + ",\"users\":"@ + match r.users {
        Some(us) => users_json(us),
        None => "null"@,
    } + "}"@
}


/// Rooms as a JSON array.
pub open spec fn rooms_json(rs: Seq<RoomView>) -> Seq<char> {
    json_array(rs.map_values(|r: RoomView| room_json(r)))
}


/// Joining one more item adds a comma before it, unless it is the first.
proof fn lemma_comma_joined_take(items: Seq<Seq<char>>, k: int)
    requires
        0 <= k < items.len(),
    ensures
        comma_joined(items.take(k + 1)) == if k == 0 {
            items[k]
        } else {
            comma_joined(items.take(k)) + ","@ + items[k]
        },
{
    assert(items.take(k + 1).drop_last() =~= items.take(k));
    if k == 0 {
        assert(items.take(1) =~= seq![items[0]]);
    }
}

fn push_digit(out: &mut String, d: u32)
    requires
        d < 10,
    ensures
        final(out)@ == old(out)@.push(digit_char(d as nat)),
{
    let s = match d {
        0 => "0",
        1 => "1",
        2 => "2",
        3 => "3",
        4 => "4",
        5 => "5",
        6 => "6",
        7 => "7",
        8 => "8",
        _ => "9",
    };
    proof {
        reveal_strlit("0");
        reveal_strlit("1");
        reveal_strlit("2");
        reveal_strlit("3");
        reveal_strlit("4");
        reveal_strlit("5");
        reveal_strlit("6");
        reveal_strlit("7");
        reveal_strlit("8");
        reveal_strlit("9");
    }
    out.append(s);
}

/// Appends the decimal digits of `n`.
fn push_decimal(out: &mut String, n: u32)
    ensures
        final(out)@ == old(out)@ + decimal(n as nat),
    decreases n,
{
    if n >= 10 {
        push_decimal(out, n / 10);
    }
    push_digit(out, n % 10);
}

fn push_opt_number(out: &mut String, n: Option<u32>)
    ensures
        final(out)@ == old(out)@ + json_opt_number(n),
{
    match n {
        Some(v) => push_decimal(out, v),
        None => out.append("null"),
    }
}

fn push_opt_string(out: &mut String, s: &Option<String>)
    ensures
        final(out)@ == old(out)@ + json_opt_string(opt_view(*s)),
{
    match s {
        Some(v) => match json_string(v.as_str()) {
            Some(j) => out.append(j.as_str()),
            None => {},
        },
        None => out.append("null"),
    }
}

fn push_user(out: &mut String, u: &UserData)
    ensures
        final(out)@ == old(out)@ + user_json(u@),
{
    out.append("{\"room_name\":");
    push_opt_string(out, &u.room_name);
    out.append(",\"user_id\":");
    push_opt_string(out, &u.user_id);
    out.append(",\"x\":");
    push_opt_number(out, u.x);
    out.append(",\"y\":");
    push_opt_number(out, u.y);
    out.append("}");
}

fn push_users(out: &mut String, us: &Vec<UserData>)
    ensures
        final(out)@ == old(out)@ + users_json(users_view(us@)),
{
    let ghost items = users_view(us@).map_values(|u: UserDataView| user_json(u));
    let ghost start = out@;
    out.append("[");
    let mut k: usize = 0;
    while k < us.len()
        invariant
            k <= us.len(),
            items == users_view(us@).map_values(|u: UserDataView| user_json(u)),
            out@ == start + "["@ + comma_joined(items.take(k as int)),
        decreases us.len() - k,
    {
        proof { lemma_comma_joined_take(items, k as int); }
        if k > 0 {
            out.append(",");
        }
        push_user(out, &us[k]);
        k += 1;
    }
    assert(items.take(us.len() as int) =~= items);
    out.append("]");
}

fn push_room(out: &mut String, r: &Room)
    ensures
        final(out)@ == old(out)@ + room_json(r@),
{
    out.append("{\"name\":");
    push_opt_string(out, &r.name);
    out.append(",\"password\":");
    push_opt_string(out, &r.password);
    out.append(",\"users\":");
    match &r.users {
        Some(us) => push_users(out, us),
        None => out.append("null"),
    }
    out.append("}");
}

/// The rooms as JSON text, as serde_json writes a vector of rooms.
pub fn rooms_to_json(rooms: &Vec<Room>) -> (r: String)
    ensures
        r@ == rooms_json(rooms@.map_values(|x: Room| x@)),
{
    let ghost rs = rooms@.map_values(|x: Room| x@);
    let ghost items = rs.map_values(|r: RoomView| room_json(r));
    let mut out = String::new();
    out.append("[");
    let mut k: usize = 0;
    while k < rooms.len()
        invariant
            k <= rooms.len(),
            rs == rooms@.map_values(|x: Room| x@),
            items == rs.map_values(|r: RoomView| room_json(r)),
            out@ == "["@ + comma_joined(items.take(k as int)),
        decreases rooms.len() - k,
    {
        proof { lemma_comma_joined_take(items, k as int); }
        if k > 0 {
            out.append(",");
        }
        push_room(&mut out, &rooms[k]);
        k += 1;
    }
    assert(items.take(rooms.len() as int) =~= items);
    out.append("]");
    out
}

} // verus!
