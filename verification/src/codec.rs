//! A plain-text serialization of the world: a record per object, every
//! number written as a fixed run of twenty decimal digits and every string
//! length-prefixed, so that decoding is a single forward scan and encoding
//! followed by decoding provably restores the object sequence.

use vstd::prelude::*;
use vstd::string::StrSliceExecFns;
use vstd::string::StringExecFns;

use crate::object::{Consumable, Enemy, Location, Object, ObjectV, Passage, Player, Weapon};
use crate::text::{digit_char, digit_char_exec, push_char, string_from_range, to_chars};
use crate::world::World;

verus! {

/// The numeric value of a decimal digit character, `-1` for anything else.
pub open spec fn digit_val(c: char) -> int {
    if c == '0' {
        0
    } else if c == '1' {
        1
    } else if c == '2' {
        2
    } else if c == '3' {
        3
    } else if c == '4' {
        4
    } else if c == '5' {
        5
    } else if c == '6' {
        6
    } else if c == '7' {
        7
    } else if c == '8' {
        8
    } else if c == '9' {
        9
    } else {
        -1
    }
}

/// Whether a character is a decimal digit.
pub open spec fn is_digit(c: char) -> bool {
    digit_val(c) >= 0
}

/// The value of a digit run, most significant first.
pub open spec fn dec_val(ds: Seq<char>) -> int
    decreases ds.len(),
{
    if ds.len() == 0 {
        0
    } else {
        dec_val(ds.drop_last()) * 10 + digit_val(ds.last())
    }
}

/// Powers of ten.
pub open spec fn pow10(k: nat) -> int
    decreases k,
{
    if k == 0 {
        1
    } else {
        10 * pow10((k - 1) as nat)
    }
}

/// A number written as exactly `k` decimal digits, leading zeros included.
pub open spec fn num20(n: int, k: nat) -> Seq<char>
    decreases k,
{
    if k == 0 {
        Seq::empty()
    } else {
        num20(n / 10, (k - 1) as nat).push(digit_char(n % 10))
    }
}

proof fn lemma_digit_char_val(d: int)
    requires
        0 <= d < 10,
    ensures
        digit_val(digit_char(d)) == d,
{
}

proof fn lemma_num20_shape(n: int, k: nat)
    requires
        n >= 0,
    ensures
        num20(n, k).len() == k,
        forall|m: int| 0 <= m < k ==> is_digit(#[trigger] num20(n, k)[m]),
    decreases k,
{
    if k > 0 {
        lemma_num20_shape(n / 10, (k - 1) as nat);
        lemma_digit_char_val(n % 10);
        assert forall|m: int| 0 <= m < k implies is_digit(#[trigger] num20(n, k)[m]) by {
            if m < k - 1 {
                assert(num20(n, k)[m] == num20(n / 10, (k - 1) as nat)[m]);
            }
        }
    }
}

proof fn lemma_num20_val(n: int, k: nat)
    requires
        0 <= n < pow10(k),
    ensures
        dec_val(num20(n, k)) == n,
    decreases k,
{
    if k == 0 {
        assert(n == 0);
    } else {
        assert(n / 10 < pow10((k - 1) as nat)) by (nonlinear_arith)
            requires
                n < pow10(k),
                pow10(k) == 10 * pow10((k - 1) as nat),
                n >= 0,
        {}
        lemma_num20_val(n / 10, (k - 1) as nat);
        lemma_num20_shape(n / 10, (k - 1) as nat);
        lemma_digit_char_val(n % 10);
        assert(num20(n, k).drop_last() =~= num20(n / 10, (k - 1) as nat));
    }
}

proof fn lemma_dec_val_nonneg(ds: Seq<char>)
    requires
        forall|m: int| 0 <= m < ds.len() ==> is_digit(#[trigger] ds[m]),
    ensures
        dec_val(ds) >= 0,
    decreases ds.len(),
{
    if ds.len() > 0 {
        assert forall|m: int| 0 <= m < ds.drop_last().len() implies is_digit(
            #[trigger] ds.drop_last()[m],
        ) by {
            assert(ds.drop_last()[m] == ds[m]);
        }
        lemma_dec_val_nonneg(ds.drop_last());
    }
}

/// The value a forward scan accumulates over the `k` characters starting
/// at `pos`, refusing a non-digit or an accumulator beyond `u64::MAX`.
pub open spec fn window_val(s: Seq<char>, pos: int, k: nat) -> Option<u64>
    decreases k,
{
    if k == 0 {
        Some(0u64)
    } else {
        match window_val(s, pos, (k - 1) as nat) {
            None => None,
            Some(acc) => {
                let c = s[pos + k - 1];
                if is_digit(c) && acc * 10 + digit_val(c) <= u64::MAX {
                    Some((acc * 10 + digit_val(c)) as u64)
                } else {
                    None
                }
            },
        }
    }
}

proof fn lemma_window_val_digits(s: Seq<char>, pos: int, k: nat)
    requires
        0 <= pos,
        pos + k <= s.len(),
        forall|m: int| pos <= m < pos + k ==> is_digit(#[trigger] s[m]),
        dec_val(s.subrange(pos, pos + k)) <= u64::MAX,
    ensures
        window_val(s, pos, k) == Some(dec_val(s.subrange(pos, pos + k)) as u64),
    decreases k,
{
    let w = s.subrange(pos, pos + k);
    assert forall|m: int| 0 <= m < k implies is_digit(#[trigger] w[m]) by {
        assert(w[m] == s[pos + m]);
    }
    lemma_dec_val_nonneg(w);
    if k > 0 {
        assert(w.drop_last() =~= s.subrange(pos, pos + k - 1));
        assert forall|m: int| 0 <= m < w.drop_last().len() implies is_digit(
            #[trigger] w.drop_last()[m],
        ) by {
            assert(w.drop_last()[m] == w[m]);
        }
        lemma_dec_val_nonneg(w.drop_last());
        assert(dec_val(w) == dec_val(w.drop_last()) * 10 + digit_val(w.last()));
        assert(dec_val(w.drop_last()) <= dec_val(w));
        lemma_window_val_digits(s, pos, (k - 1) as nat);
        assert(w.last() == s[pos + k - 1]);
    }
}

/// The fixed width of every number field.
pub const NUM_WIDTH: usize = 20;

/// A twenty-digit field can hold any `u64`.
proof fn lemma_pow10_20_large()
    ensures
        pow10(20) > u64::MAX,
{
    reveal_with_fuel(pow10, 21);
    assert(pow10(20) == 100000000000000000000);
}

/// The encoding of one number.
pub open spec fn enc_num(n: u64) -> Seq<char> {
    num20(n as int, 20)
}

/// The encoding of one string: its length, then its characters.
pub open spec fn enc_str_field(t: Seq<char>) -> Seq<char> {
    enc_num(t.len() as u64) + t
}

/// The encoding of an optional index: a sign, then a number.
pub open spec fn enc_opt(o: Option<usize>) -> Seq<char> {
    match o {
        None => seq!['-'] + enc_num(0),
        Some(v) => seq!['+'] + enc_num(v as u64),
    }
}

/// The record of one object: a tag character, its fields, a newline.
pub open spec fn enc_obj(o: ObjectV) -> Seq<char> {
    match o {
        ObjectV::Location { name, description } => seq!['L'] + enc_str_field(name) + enc_str_field(
            description,
        ) + seq!['\n'],
        ObjectV::Player { name, location, health } => seq!['P'] + enc_str_field(name) + enc_num(
            location as u64,
        ) + enc_num(health) + seq!['\n'],
        ObjectV::Weapon { name, description, location, attack_points } => seq!['W']
            + enc_str_field(name) + enc_str_field(description) + enc_opt(location) + enc_num(
            attack_points,
        ) + seq!['\n'],
        ObjectV::Consumable { name, description, heal_amount, location } => seq!['C']
            + enc_str_field(name) + enc_str_field(description) + enc_num(heal_amount) + enc_opt(
            location,
        ) + seq!['\n'],
        ObjectV::Enemy { name, description, health, attack, location } => seq!['E']
            + enc_str_field(name) + enc_str_field(description) + enc_num(health) + enc_num(attack)
            + enc_num(location as u64) + seq!['\n'],
        ObjectV::Passage { name, description, location, destination } => seq!['G']
            + enc_str_field(name) + enc_str_field(description) + enc_opt(location) + enc_opt(
            destination,
        ) + seq!['\n'],
    }
}

/// The records of a sequence of objects, in order.
pub open spec fn enc_list(objs: Seq<ObjectV>) -> Seq<char>
    decreases objs.len(),
{
    if objs.len() == 0 {
        Seq::empty()
    } else {
        enc_obj(objs[0]) + enc_list(objs.drop_first())
    }
}

/// The whole encoding: the object count, then the records.
pub open spec fn spec_encode(objs: Seq<ObjectV>) -> Seq<char> {
    enc_num(objs.len() as u64) + enc_list(objs)
}

/// Reading one number field.
pub open spec fn dec_num_at(s: Seq<char>, pos: int) -> Option<(u64, int)> {
    if 0 <= pos && pos + 20 <= s.len() {
        match window_val(s, pos, 20) {
            Some(v) => Some((v, pos + 20)),
            None => None,
        }
    } else {
        None
    }
}

/// Reading one number field that must fit an index.
pub open spec fn dec_usize_at(s: Seq<char>, pos: int) -> Option<(usize, int)> {
    match dec_num_at(s, pos) {
        Some((v, p)) => if v <= usize::MAX {
            Some((v as usize, p))
        } else {
            None
        },
        None => None,
    }
}

/// Reading one string field.
pub open spec fn dec_str_at(s: Seq<char>, pos: int) -> Option<(Seq<char>, int)> {
    match dec_num_at(s, pos) {
        Some((k, p)) => if p + k <= s.len() {
            Some((s.subrange(p, p + k), p + k))
        } else {
            None
        },
        None => None,
    }
}

/// Reading one optional index field.
pub open spec fn dec_opt_at(s: Seq<char>, pos: int) -> Option<(Option<usize>, int)> {
    if 0 <= pos && pos < s.len() {
        if s[pos] == '-' {
            match dec_num_at(s, pos + 1) {
                Some((_, p)) => Some((None, p)),
                None => None,
            }
        } else if s[pos] == '+' {
            match dec_usize_at(s, pos + 1) {
                Some((v, p)) => Some((Some(v), p)),
                None => None,
            }
        } else {
            None
        }
    } else {
        None
    }
}

/// Reading the closing newline of a record.
pub open spec fn dec_nl_at(s: Seq<char>, pos: int) -> Option<int> {
    if 0 <= pos && pos < s.len() && s[pos] == '\n' {
        Some(pos + 1)
    } else {
        None
    }
}

/// Reading one record.
pub open spec fn dec_obj_at(s: Seq<char>, pos: int) -> Option<(ObjectV, int)> {
    if 0 <= pos && pos < s.len() {
        let tag = s[pos];
        if tag == 'L' {
            match dec_str_at(s, pos + 1) {
                Some((name, p1)) => match dec_str_at(s, p1) {
                    Some((description, p2)) => match dec_nl_at(s, p2) {
                        Some(p3) => Some((ObjectV::Location { name, description }, p3)),
                        None => None,
                    },
                    None => None,
                },
                None => None,
            }
        } else if tag == 'P' {
            match dec_str_at(s, pos + 1) {
                Some((name, p1)) => match dec_usize_at(s, p1) {
                    Some((location, p2)) => match dec_num_at(s, p2) {
                        Some((health, p3)) => match dec_nl_at(s, p3) {
                            Some(p4) => Some((ObjectV::Player { name, location, health }, p4)),
                            None => None,
                        },
                        None => None,
                    },
                    None => None,
                },
                None => None,
            }
        } else if tag == 'W' {
            match dec_str_at(s, pos + 1) {
                Some((name, p1)) => match dec_str_at(s, p1) {
                    Some((description, p2)) => match dec_opt_at(s, p2) {
                        Some((location, p3)) => match dec_num_at(s, p3) {
                            Some((attack_points, p4)) => match dec_nl_at(s, p4) {
                                Some(p5) => Some(
                                    (
                                        ObjectV::Weapon {
                                            name,
                                            description,
                                            location,
                                            attack_points,
                                        },
                                        p5,
                                    ),
                                ),
                                None => None,
                            },
                            None => None,
                        },
                        None => None,
                    },
                    None => None,
                },
                None => None,
            }
        } else if tag == 'C' {
            match dec_str_at(s, pos + 1) {
                Some((name, p1)) => match dec_str_at(s, p1) {
                    Some((description, p2)) => match dec_num_at(s, p2) {
                        Some((heal_amount, p3)) => match dec_opt_at(s, p3) {
                            Some((location, p4)) => match dec_nl_at(s, p4) {
                                Some(p5) => Some(
                                    (
                                        ObjectV::Consumable {
                                            name,
                                            description,
                                            heal_amount,
                                            location,
                                        },
                                        p5,
                                    ),
                                ),
                                None => None,
                            },
                            None => None,
                        },
                        None => None,
                    },
                    None => None,
                },
                None => None,
            }
        } else if tag == 'E' {
            match dec_str_at(s, pos + 1) {
                Some((name, p1)) => match dec_str_at(s, p1) {
                    Some((description, p2)) => match dec_num_at(s, p2) {
                        Some((health, p3)) => match dec_num_at(s, p3) {
                            Some((attack, p4)) => match dec_usize_at(s, p4) {
                                Some((location, p5)) => match dec_nl_at(s, p5) {
                                    Some(p6) => Some(
                                        (
                                            ObjectV::Enemy {
                                                name,
                                                description,
                                                health,
                                                attack,
                                                location,
                                            },
                                            p6,
                                        ),
                                    ),
                                    None => None,
                                },
                                None => None,
                            },
                            None => None,
                        },
                        None => None,
                    },
                    None => None,
                },
                None => None,
            }
        } else if tag == 'G' {
            match dec_str_at(s, pos + 1) {
                Some((name, p1)) => match dec_str_at(s, p1) {
                    Some((description, p2)) => match dec_opt_at(s, p2) {
                        Some((location, p3)) => match dec_opt_at(s, p3) {
                            Some((destination, p4)) => match dec_nl_at(s, p4) {
                                Some(p5) => Some(
                                    (
                                        ObjectV::Passage {
                                            name,
                                            description,
                                            location,
                                            destination,
                                        },
                                        p5,
                                    ),
                                ),
                                None => None,
                            },
                            None => None,
                        },
                        None => None,
                    },
                    None => None,
                },
                None => None,
            }
        } else {
            None
        }
    } else {
        None
    }
}

/// Reading `count` records in a row.
pub open spec fn dec_list_at(s: Seq<char>, pos: int, count: nat) -> Option<(Seq<ObjectV>, int)>
    decreases count,
{
    if count == 0 {
        Some((Seq::empty(), pos))
    } else {
        match dec_obj_at(s, pos) {
            Some((o, p)) => match dec_list_at(s, p, (count - 1) as nat) {
                Some((rest, p2)) => Some((seq![o] + rest, p2)),
                None => None,
            },
            None => None,
        }
    }
}

/// Decoding a whole world: the count, that many records, and nothing left.
pub open spec fn spec_decode(s: Seq<char>) -> Option<Seq<ObjectV>> {
    match dec_usize_at(s, 0) {
        Some((count, p)) => match dec_list_at(s, p, count as nat) {
            Some((objs, p2)) => if p2 == s.len() {
                Some(objs)
            } else {
                None
            },
            None => None,
        },
        None => None,
    }
}

/// An object whose text fields fit the length prefix; every object held in
/// an actual world does.
pub open spec fn obj_bounded(o: ObjectV) -> bool {
    o.name().len() <= u64::MAX && o.description().len() <= u64::MAX
}

proof fn lemma_dec_num_at_enc(s: Seq<char>, pos: int, n: u64)
    requires
        0 <= pos,
        pos + 20 <= s.len(),
        s.subrange(pos, pos + 20) == enc_num(n),
    ensures
        dec_num_at(s, pos) == Some((n, pos + 20)),
{
    lemma_pow10_20_large();
    lemma_num20_shape(n as int, 20);
    lemma_num20_val(n as int, 20);
    assert forall|m: int| pos <= m < pos + 20 implies is_digit(#[trigger] s[m]) by {
        assert(s[m] == enc_num(n)[m - pos]);
    }
    assert(dec_val(s.subrange(pos, pos + 20)) == n as int);
    lemma_window_val_digits(s, pos, 20);
}

proof fn lemma_dec_usize_at_enc(s: Seq<char>, pos: int, v: usize)
    requires
        0 <= pos,
        pos + 20 <= s.len(),
        s.subrange(pos, pos + 20) == enc_num(v as u64),
    ensures
        dec_usize_at(s, pos) == Some((v, pos + 20)),
{
    lemma_dec_num_at_enc(s, pos, v as u64);
}

proof fn lemma_dec_str_at_enc(s: Seq<char>, pos: int, t: Seq<char>)
    requires
        0 <= pos,
        t.len() <= u64::MAX,
        pos + enc_str_field(t).len() <= s.len(),
        s.subrange(pos, pos + enc_str_field(t).len()) == enc_str_field(t),
    ensures
        enc_str_field(t).len() == 20 + t.len(),
        dec_str_at(s, pos) == Some((t, pos + 20 + t.len())),
{
    lemma_num20_shape(t.len() as int, 20);
    let e = enc_str_field(t);
    assert(e.len() == 20 + t.len());
    assert(s.subrange(pos, pos + 20) =~= enc_num(t.len() as u64)) by {
        assert forall|m: int| 0 <= m < 20 implies (#[trigger] s.subrange(pos, pos + 20)[m])
            == enc_num(t.len() as u64)[m] by {
            assert(s[pos + m] == e[m]);
        }
    }
    lemma_dec_num_at_enc(s, pos, t.len() as u64);
    assert(s.subrange(pos + 20, pos + 20 + t.len()) =~= t) by {
        assert forall|m: int| 0 <= m < t.len() implies (#[trigger] s.subrange(
            pos + 20,
            pos + 20 + t.len(),
        )[m]) == t[m] by {
            assert(s[pos + 20 + m] == e[20 + m]);
        }
    }
}

proof fn lemma_dec_opt_at_enc(s: Seq<char>, pos: int, o: Option<usize>)
    requires
        0 <= pos,
        pos + 21 <= s.len(),
        s.subrange(pos, pos + 21) == enc_opt(o),
    ensures
        enc_opt(o).len() == 21,
        dec_opt_at(s, pos) == Some((o, pos + 21)),
{
    let e = enc_opt(o);
    match o {
        None => {
            lemma_num20_shape(0, 20);
            assert(e.len() == 21);
            assert(s[pos] == e[0]);
            assert(s.subrange(pos + 1, pos + 21) =~= enc_num(0)) by {
                assert forall|m: int| 0 <= m < 20 implies (#[trigger] s.subrange(
                    pos + 1,
                    pos + 21,
                )[m]) == enc_num(0)[m] by {
                    assert(s[pos + 1 + m] == e[1 + m]);
                }
            }
            lemma_dec_num_at_enc(s, pos + 1, 0);
        },
        Some(v) => {
            lemma_num20_shape(v as int, 20);
            assert(e.len() == 21);
            assert(s[pos] == e[0]);
            assert(s.subrange(pos + 1, pos + 21) =~= enc_num(v as u64)) by {
                assert forall|m: int| 0 <= m < 20 implies (#[trigger] s.subrange(
                    pos + 1,
                    pos + 21,
                )[m]) == enc_num(v as u64)[m] by {
                    assert(s[pos + 1 + m] == e[1 + m]);
                }
            }
            lemma_dec_usize_at_enc(s, pos + 1, v);
        },
    }
}

proof fn lemma_enc_num_len(n: u64)
    ensures
        enc_num(n).len() == 20,
{
    lemma_num20_shape(n as int, 20);
}

proof fn lemma_enc_opt_len(o: Option<usize>)
    ensures
        enc_opt(o).len() == 21,
{
    match o {
        None => lemma_num20_shape(0, 20),
        Some(v) => lemma_num20_shape(v as int, 20),
    }
}

/// Splitting a matched window at a concatenation boundary.
proof fn lemma_subrange_split(s: Seq<char>, pos: int, a: Seq<char>, b: Seq<char>)
    requires
        0 <= pos,
        pos + a.len() + b.len() <= s.len(),
        s.subrange(pos, pos + a.len() + b.len()) == a + b,
    ensures
        s.subrange(pos, pos + a.len()) == a,
        s.subrange(pos + a.len(), pos + a.len() + b.len()) == b,
{
    let w = s.subrange(pos, pos + a.len() + b.len());
    assert(s.subrange(pos, pos + a.len()) =~= a) by {
        assert forall|j: int| 0 <= j < a.len() implies (#[trigger] s.subrange(
            pos,
            pos + a.len(),
        )[j]) == a[j] by {
            assert(w[j] == (a + b)[j]);
        }
    }
    assert(s.subrange(pos + a.len(), pos + a.len() + b.len()) =~= b) by {
        assert forall|j: int| 0 <= j < b.len() implies (#[trigger] s.subrange(
            pos + a.len(),
            pos + a.len() + b.len(),
        )[j]) == b[j] by {
            assert(w[a.len() + j] == (a + b)[a.len() + j]);
        }
    }
}

/// A matched single-character window pins the character.
proof fn lemma_subrange_char(s: Seq<char>, pos: int, c: char)
    requires
        0 <= pos,
        pos + 1 <= s.len(),
        s.subrange(pos, pos + 1) == seq![c],
    ensures
        s[pos] == c,
{
    assert(s.subrange(pos, pos + 1)[0] == c);
}

#[verifier::spinoff_prover]
proof fn lemma_dec_obj_loc(s: Seq<char>, pos: int, name: Seq<char>, description: Seq<char>)
    requires
        0 <= pos,
        name.len() <= u64::MAX,
        description.len() <= u64::MAX,
        pos + enc_obj(ObjectV::Location { name, description }).len() <= s.len(),
        s.subrange(pos, pos + enc_obj(ObjectV::Location { name, description }).len()) == enc_obj(
            ObjectV::Location { name, description },
        ),
    ensures
        dec_obj_at(s, pos) == Some(
            (
                ObjectV::Location { name, description },
                pos + enc_obj(ObjectV::Location { name, description }).len(),
            ),
        ),
{
    let t = seq!['L'];
    let a = enc_str_field(name);
    let b = enc_str_field(description);
    let nl = seq!['\n'];
    lemma_num20_shape(name.len() as int, 20);
    lemma_num20_shape(description.len() as int, 20);
    lemma_subrange_split(s, pos, t + a + b, nl);
    lemma_subrange_split(s, pos, t + a, b);
    lemma_subrange_split(s, pos, t, a);
    lemma_subrange_char(s, pos, 'L');
    lemma_dec_str_at_enc(s, pos + 1, name);
    lemma_dec_str_at_enc(s, pos + 1 + a.len(), description);
    lemma_subrange_char(s, pos + t.len() + a.len() + b.len(), '\n');
}

#[verifier::spinoff_prover]
proof fn lemma_dec_obj_player(s: Seq<char>, pos: int, name: Seq<char>, location: usize, health: u64)
    requires
        0 <= pos,
        name.len() <= u64::MAX,
        pos + enc_obj(ObjectV::Player { name, location, health }).len() <= s.len(),
        s.subrange(pos, pos + enc_obj(ObjectV::Player { name, location, health }).len())
            == enc_obj(ObjectV::Player { name, location, health }),
    ensures
        dec_obj_at(s, pos) == Some(
            (
                ObjectV::Player { name, location, health },
                pos + enc_obj(ObjectV::Player { name, location, health }).len(),
            ),
        ),
{
    let t = seq!['P'];
    let a = enc_str_field(name);
    let b = enc_num(location as u64);
    let c = enc_num(health);
    let nl = seq!['\n'];
    lemma_num20_shape(name.len() as int, 20);
    lemma_enc_num_len(location as u64);
    lemma_enc_num_len(health);
    lemma_subrange_split(s, pos, t + a + b + c, nl);
    lemma_subrange_split(s, pos, t + a + b, c);
    lemma_subrange_split(s, pos, t + a, b);
    lemma_subrange_split(s, pos, t, a);
    lemma_subrange_char(s, pos, 'P');
    lemma_dec_str_at_enc(s, pos + 1, name);
    lemma_dec_usize_at_enc(s, pos + 1 + a.len(), location);
    lemma_dec_num_at_enc(s, pos + 1 + a.len() + 20, health);
    lemma_subrange_char(s, pos + 1 + a.len() + 40, '\n');
}

#[verifier::spinoff_prover]
proof fn lemma_dec_obj_weapon(
    s: Seq<char>,
    pos: int,
    name: Seq<char>,
    description: Seq<char>,
    location: Option<usize>,
    attack_points: u64,
)
    requires
        0 <= pos,
        name.len() <= u64::MAX,
        description.len() <= u64::MAX,
        pos + enc_obj(ObjectV::Weapon { name, description, location, attack_points }).len()
            <= s.len(),
        s.subrange(
            pos,
            pos + enc_obj(ObjectV::Weapon { name, description, location, attack_points }).len(),
        ) == enc_obj(ObjectV::Weapon { name, description, location, attack_points }),
    ensures
        dec_obj_at(s, pos) == Some(
            (
                ObjectV::Weapon { name, description, location, attack_points },
                pos + enc_obj(ObjectV::Weapon { name, description, location, attack_points }).len(),
            ),
        ),
{
    let t = seq!['W'];
    let a = enc_str_field(name);
    let b = enc_str_field(description);
    let c = enc_opt(location);
    let d = enc_num(attack_points);
    let nl = seq!['\n'];
    lemma_num20_shape(name.len() as int, 20);
    lemma_num20_shape(description.len() as int, 20);
    lemma_enc_opt_len(location);
    lemma_enc_num_len(attack_points);
    lemma_subrange_split(s, pos, t + a + b + c + d, nl);
    lemma_subrange_split(s, pos, t + a + b + c, d);
    lemma_subrange_split(s, pos, t + a + b, c);
    lemma_subrange_split(s, pos, t + a, b);
    lemma_subrange_split(s, pos, t, a);
    lemma_subrange_char(s, pos, 'W');
    lemma_dec_str_at_enc(s, pos + 1, name);
    lemma_dec_str_at_enc(s, pos + 1 + a.len(), description);
    lemma_dec_opt_at_enc(s, pos + 1 + a.len() + b.len(), location);
    lemma_dec_num_at_enc(s, pos + 1 + a.len() + b.len() + 21, attack_points);
    lemma_subrange_char(s, pos + 1 + a.len() + b.len() + 41, '\n');
}

#[verifier::spinoff_prover]
proof fn lemma_dec_obj_consumable(
    s: Seq<char>,
    pos: int,
    name: Seq<char>,
    description: Seq<char>,
    heal_amount: u64,
    location: Option<usize>,
)
    requires
        0 <= pos,
        name.len() <= u64::MAX,
        description.len() <= u64::MAX,
        pos + enc_obj(ObjectV::Consumable { name, description, heal_amount, location }).len()
            <= s.len(),
        s.subrange(
            pos,
            pos + enc_obj(ObjectV::Consumable { name, description, heal_amount, location }).len(),
        ) == enc_obj(ObjectV::Consumable { name, description, heal_amount, location }),
    ensures
        dec_obj_at(s, pos) == Some(
            (
                ObjectV::Consumable { name, description, heal_amount, location },
                pos + enc_obj(
                    ObjectV::Consumable { name, description, heal_amount, location },
                ).len(),
            ),
        ),
{
    let t = seq!['C'];
    let a = enc_str_field(name);
    let b = enc_str_field(description);
    let c = enc_num(heal_amount);
    let d = enc_opt(location);
    let nl = seq!['\n'];
    lemma_num20_shape(name.len() as int, 20);
    lemma_num20_shape(description.len() as int, 20);
    lemma_enc_num_len(heal_amount);
    lemma_enc_opt_len(location);
    lemma_subrange_split(s, pos, t + a + b + c + d, nl);
    lemma_subrange_split(s, pos, t + a + b + c, d);
    lemma_subrange_split(s, pos, t + a + b, c);
    lemma_subrange_split(s, pos, t + a, b);
    lemma_subrange_split(s, pos, t, a);
    lemma_subrange_char(s, pos, 'C');
    lemma_dec_str_at_enc(s, pos + 1, name);
    lemma_dec_str_at_enc(s, pos + 1 + a.len(), description);
    lemma_dec_num_at_enc(s, pos + 1 + a.len() + b.len(), heal_amount);
    lemma_dec_opt_at_enc(s, pos + 1 + a.len() + b.len() + 20, location);
    lemma_subrange_char(s, pos + 1 + a.len() + b.len() + 41, '\n');
}

#[verifier::spinoff_prover]
proof fn lemma_dec_obj_enemy(
    s: Seq<char>,
    pos: int,
    name: Seq<char>,
    description: Seq<char>,
    health: u64,
    attack: u64,
    location: usize,
)
    requires
        0 <= pos,
        name.len() <= u64::MAX,
        description.len() <= u64::MAX,
        pos + enc_obj(ObjectV::Enemy { name, description, health, attack, location }).len()
            <= s.len(),
        s.subrange(
            pos,
            pos + enc_obj(ObjectV::Enemy { name, description, health, attack, location }).len(),
        ) == enc_obj(ObjectV::Enemy { name, description, health, attack, location }),
    ensures
        dec_obj_at(s, pos) == Some(
            (
                ObjectV::Enemy { name, description, health, attack, location },
                pos + enc_obj(ObjectV::Enemy { name, description, health, attack, location }).len(),
            ),
        ),
{
    let t = seq!['E'];
    let a = enc_str_field(name);
    let b = enc_str_field(description);
    let c = enc_num(health);
    let d = enc_num(attack);
    let e = enc_num(location as u64);
    let nl = seq!['\n'];
    lemma_num20_shape(name.len() as int, 20);
    lemma_num20_shape(description.len() as int, 20);
    lemma_enc_num_len(health);
    lemma_enc_num_len(attack);
    lemma_enc_num_len(location as u64);
    lemma_subrange_split(s, pos, t + a + b + c + d + e, nl);
    lemma_subrange_split(s, pos, t + a + b + c + d, e);
    lemma_subrange_split(s, pos, t + a + b + c, d);
    lemma_subrange_split(s, pos, t + a + b, c);
    lemma_subrange_split(s, pos, t + a, b);
    lemma_subrange_split(s, pos, t, a);
    lemma_subrange_char(s, pos, 'E');
    lemma_dec_str_at_enc(s, pos + 1, name);
    lemma_dec_str_at_enc(s, pos + 1 + a.len(), description);
    lemma_dec_num_at_enc(s, pos + 1 + a.len() + b.len(), health);
    lemma_dec_num_at_enc(s, pos + 1 + a.len() + b.len() + 20, attack);
    lemma_dec_usize_at_enc(s, pos + 1 + a.len() + b.len() + 40, location);
    lemma_subrange_char(s, pos + 1 + a.len() + b.len() + 60, '\n');
}

#[verifier::spinoff_prover]
proof fn lemma_dec_obj_passage(
    s: Seq<char>,
    pos: int,
    name: Seq<char>,
    description: Seq<char>,
    location: Option<usize>,
    destination: Option<usize>,
)
    requires
        0 <= pos,
        name.len() <= u64::MAX,
        description.len() <= u64::MAX,
        pos + enc_obj(ObjectV::Passage { name, description, location, destination }).len()
            <= s.len(),
        s.subrange(
            pos,
            pos + enc_obj(ObjectV::Passage { name, description, location, destination }).len(),
        ) == enc_obj(ObjectV::Passage { name, description, location, destination }),
    ensures
        dec_obj_at(s, pos) == Some(
            (
                ObjectV::Passage { name, description, location, destination },
                pos + enc_obj(ObjectV::Passage { name, description, location, destination }).len(),
            ),
        ),
{
    let t = seq!['G'];
    let a = enc_str_field(name);
    let b = enc_str_field(description);
    let c = enc_opt(location);
    let d = enc_opt(destination);
    let nl = seq!['\n'];
    lemma_num20_shape(name.len() as int, 20);
    lemma_num20_shape(description.len() as int, 20);
    lemma_enc_opt_len(location);
    lemma_enc_opt_len(destination);
    lemma_subrange_split(s, pos, t + a + b + c + d, nl);
    lemma_subrange_split(s, pos, t + a + b + c, d);
    lemma_subrange_split(s, pos, t + a + b, c);
    lemma_subrange_split(s, pos, t + a, b);
    lemma_subrange_split(s, pos, t, a);
    lemma_subrange_char(s, pos, 'G');
    lemma_dec_str_at_enc(s, pos + 1, name);
    lemma_dec_str_at_enc(s, pos + 1 + a.len(), description);
    lemma_dec_opt_at_enc(s, pos + 1 + a.len() + b.len(), location);
    lemma_dec_opt_at_enc(s, pos + 1 + a.len() + b.len() + 21, destination);
    lemma_subrange_char(s, pos + 1 + a.len() + b.len() + 42, '\n');
}

/// Decoding one record out of a longer text restores the object encoded
/// there and stops right after its newline.
proof fn lemma_dec_obj_at_enc(s: Seq<char>, pos: int, o: ObjectV)
    requires
        0 <= pos,
        obj_bounded(o),
        pos + enc_obj(o).len() <= s.len(),
        s.subrange(pos, pos + enc_obj(o).len()) == enc_obj(o),
    ensures
        dec_obj_at(s, pos) == Some((o, pos + enc_obj(o).len())),
{
    match o {
        ObjectV::Location { name, description } => lemma_dec_obj_loc(s, pos, name, description),
        ObjectV::Player { name, location, health } => lemma_dec_obj_player(
            s,
            pos,
            name,
            location,
            health,
        ),
        ObjectV::Weapon { name, description, location, attack_points } => lemma_dec_obj_weapon(
            s,
            pos,
            name,
            description,
            location,
            attack_points,
        ),
        ObjectV::Consumable { name, description, heal_amount, location } => lemma_dec_obj_consumable(
            s,
            pos,
            name,
            description,
            heal_amount,
            location,
        ),
        ObjectV::Enemy { name, description, health, attack, location } => lemma_dec_obj_enemy(
            s,
            pos,
            name,
            description,
            health,
            attack,
            location,
        ),
        ObjectV::Passage { name, description, location, destination } => lemma_dec_obj_passage(
            s,
            pos,
            name,
            description,
            location,
            destination,
        ),
    }
}

#[verifier::spinoff_prover]
proof fn lemma_dec_list_at_enc(s: Seq<char>, pos: int, objs: Seq<ObjectV>)
    requires
        0 <= pos,
        forall|i: int| 0 <= i < objs.len() ==> obj_bounded(#[trigger] objs[i]),
        pos + enc_list(objs).len() <= s.len(),
        s.subrange(pos, pos + enc_list(objs).len()) == enc_list(objs),
    ensures
        dec_list_at(s, pos, objs.len()) == Some((objs, pos + enc_list(objs).len())),
    decreases objs.len(),
{
    if objs.len() == 0 {
        assert(dec_list_at(s, pos, 0) == Some((Seq::<ObjectV>::empty(), pos)));
        assert(objs =~= Seq::<ObjectV>::empty());
    } else {
        let e0 = enc_obj(objs[0]);
        let rest = enc_list(objs.drop_first());
        assert(enc_list(objs) == e0 + rest);
        lemma_subrange_split(s, pos, e0, rest);
        lemma_dec_obj_at_enc(s, pos, objs[0]);
        let p1 = pos + e0.len();
        assert forall|i: int| 0 <= i < objs.drop_first().len() implies obj_bounded(
            #[trigger] objs.drop_first()[i],
        ) by {
            assert(objs.drop_first()[i] == objs[i + 1]);
        }
        lemma_dec_list_at_enc(s, p1, objs.drop_first());
        assert(seq![objs[0]] + objs.drop_first() =~= objs);
    }
}

fn digit_val_exec(c: char) -> (r: Option<u64>)
    ensures
        r is Some <==> is_digit(c),
        r matches Some(v) ==> v == digit_val(c),
{
    match c {
        '0' => Some(0),
        '1' => Some(1),
        '2' => Some(2),
        '3' => Some(3),
        '4' => Some(4),
        '5' => Some(5),
        '6' => Some(6),
        '7' => Some(7),
        '8' => Some(8),
        '9' => Some(9),
        _ => None,
    }
}

proof fn lemma_acc_bound(acc: u64, dv: u64)
    requires
        dv <= 9,
    ensures
        (acc as int) * 10 + dv <= u64::MAX <==> acc <= (u64::MAX - dv) / 10,
{
    let m = u64::MAX - dv;
    assert((acc as int) * 10 <= m <==> acc <= m / 10) by (nonlinear_arith)
        requires
            m >= 0,
            acc >= 0,
            m == 10 * (m / 10) + m % 10,
            0 <= m % 10 < 10,
    {}
}

fn parse_window(s: &Vec<char>, pos: usize, k: usize) -> (r: Option<u64>)
    requires
        pos + k <= s@.len(),
    ensures
        r == window_val(s@, pos as int, k as nat),
    decreases k,
{
    if k == 0 {
        Some(0)
    } else {
        let n = s.len();
        match parse_window(s, pos, k - 1) {
            None => None,
            Some(acc) => {
                let c = s[pos + (k - 1)];
                match digit_val_exec(c) {
                    Some(dv) => {
                        proof {
                            lemma_acc_bound(acc, dv);
                        }
                        if acc <= (u64::MAX - dv) / 10 {
                            Some(acc * 10 + dv)
                        } else {
                            None
                        }
                    },
                    None => None,
                }
            },
        }
    }
}

fn parse_num(s: &Vec<char>, pos: usize) -> (r: Option<(u64, usize)>)
    ensures
        r is Some <==> dec_num_at(s@, pos as int) is Some,
        r matches Some((v, p)) ==> dec_num_at(s@, pos as int) == Some((v, p as int)),
{
    if pos <= s.len() && s.len() - pos >= 20 {
        match parse_window(s, pos, 20) {
            Some(v) => Some((v, pos + 20)),
            None => None,
        }
    } else {
        None
    }
}

fn parse_usize(s: &Vec<char>, pos: usize) -> (r: Option<(usize, usize)>)
    ensures
        r is Some <==> dec_usize_at(s@, pos as int) is Some,
        r matches Some((v, p)) ==> dec_usize_at(s@, pos as int) == Some((v, p as int)),
{
    match parse_num(s, pos) {
        Some((v, p)) => {
            if v <= usize::MAX as u64 {
                Some((v as usize, p))
            } else {
                None
            }
        },
        None => None,
    }
}

fn parse_str_field(s: &Vec<char>, pos: usize) -> (r: Option<(String, usize)>)
    ensures
        r is Some <==> dec_str_at(s@, pos as int) is Some,
        r matches Some(x) ==> dec_str_at(s@, pos as int) == Some((x.0@, x.1 as int)),
{
    match parse_num(s, pos) {
        Some((k, p)) => {
            if k <= (s.len() - p) as u64 {
                let end = p + (k as usize);
                let t = string_from_range(s, p, end);
                Some((t, end))
            } else {
                None
            }
        },
        None => None,
    }
}

fn parse_opt(s: &Vec<char>, pos: usize) -> (r: Option<(Option<usize>, usize)>)
    ensures
        r is Some <==> dec_opt_at(s@, pos as int) is Some,
        r matches Some(x) ==> dec_opt_at(s@, pos as int) == Some((x.0, x.1 as int)),
{
    if pos < s.len() {
        let c = s[pos];
        if c == '-' {
            match parse_num(s, pos + 1) {
                Some((_, p)) => Some((None, p)),
                None => None,
            }
        } else if c == '+' {
            match parse_usize(s, pos + 1) {
                Some((v, p)) => Some((Some(v), p)),
                None => None,
            }
        } else {
            None
        }
    } else {
        None
    }
}

fn parse_obj(s: &Vec<char>, pos: usize) -> (r: Option<(Object, usize)>)
    ensures
        r is Some <==> dec_obj_at(s@, pos as int) is Some,
        r matches Some(x) ==> dec_obj_at(s@, pos as int) == Some((x.0@, x.1 as int)),
{
    if pos >= s.len() {
        return None;
    }
    let tag = s[pos];
    if tag == 'L' {
        match parse_str_field(s, pos + 1) {
            Some((name, p1)) => match parse_str_field(s, p1) {
                Some((description, p2)) => {
                    if p2 < s.len() && s[p2] == '\n' {
                        Some((Object::Location(Location { name, description }), p2 + 1))
                    } else {
                        None
                    }
                },
                None => None,
            },
            None => None,
        }
    } else if tag == 'P' {
        match parse_str_field(s, pos + 1) {
            Some((name, p1)) => match parse_usize(s, p1) {
                Some((location, p2)) => match parse_num(s, p2) {
                    Some((health, p3)) => {
                        if p3 < s.len() && s[p3] == '\n' {
                            Some((Object::Player(Player { name, location, health }), p3 + 1))
                        } else {
                            None
                        }
                    },
                    None => None,
                },
                None => None,
            },
            None => None,
        }
    } else if tag == 'W' {
        match parse_str_field(s, pos + 1) {
            Some((name, p1)) => match parse_str_field(s, p1) {
                Some((description, p2)) => match parse_opt(s, p2) {
                    Some((location, p3)) => match parse_num(s, p3) {
                        Some((attack_points, p4)) => {
                            if p4 < s.len() && s[p4] == '\n' {
                                Some(
                                    (
                                        Object::Weapon(
                                            Weapon { name, description, location, attack_points },
                                        ),
                                        p4 + 1,
                                    ),
                                )
                            } else {
                                None
                            }
                        },
                        None => None,
                    },
                    None => None,
                },
                None => None,
            },
            None => None,
        }
    } else if tag == 'C' {
        match parse_str_field(s, pos + 1) {
            Some((name, p1)) => match parse_str_field(s, p1) {
                Some((description, p2)) => match parse_num(s, p2) {
                    Some((heal_amount, p3)) => match parse_opt(s, p3) {
                        Some((location, p4)) => {
                            if p4 < s.len() && s[p4] == '\n' {
                                Some(
                                    (
                                        Object::Consumable(
                                            Consumable { name, description, heal_amount, location },
                                        ),
                                        p4 + 1,
                                    ),
                                )
                            } else {
                                None
                            }
                        },
                        None => None,
                    },
                    None => None,
                },
                None => None,
            },
            None => None,
        }
    } else if tag == 'E' {
        match parse_str_field(s, pos + 1) {
            Some((name, p1)) => match parse_str_field(s, p1) {
                Some((description, p2)) => match parse_num(s, p2) {
                    Some((health, p3)) => match parse_num(s, p3) {
                        Some((attack, p4)) => match parse_usize(s, p4) {
                            Some((location, p5)) => {
                                if p5 < s.len() && s[p5] == '\n' {
                                    Some(
                                        (
                                            Object::Enemy(
                                                Enemy {
                                                    name,
                                                    description,
                                                    health,
                                                    attack,
                                                    location,
                                                },
                                            ),
                                            p5 + 1,
                                        ),
                                    )
                                } else {
                                    None
                                }
                            },
                            None => None,
                        },
                        None => None,
                    },
                    None => None,
                },
                None => None,
            },
            None => None,
        }
    } else if tag == 'G' {
        match parse_str_field(s, pos + 1) {
            Some((name, p1)) => match parse_str_field(s, p1) {
                Some((description, p2)) => match parse_opt(s, p2) {
                    Some((location, p3)) => match parse_opt(s, p3) {
                        Some((destination, p4)) => {
                            if p4 < s.len() && s[p4] == '\n' {
                                Some(
                                    (
                                        Object::Passage(
                                            Passage { name, description, location, destination },
                                        ),
                                        p4 + 1,
                                    ),
                                )
                            } else {
                                None
                            }
                        },
                        None => None,
                    },
                    None => None,
                },
                None => None,
            },
            None => None,
        }
    } else {
        None
    }
}

fn push_digits(out: &mut String, n: u64, k: usize)
    ensures
        final(out)@ == old(out)@ + num20(n as int, k as nat),
    decreases k,
{
    if k > 0 {
        push_digits(out, n / 10, k - 1);
        push_char(out, digit_char_exec(n % 10));
        proof {
            assert(out@ =~= old(out)@ + num20(n as int, k as nat));
        }
    } else {
        proof {
            assert(out@ =~= old(out)@ + num20(n as int, 0));
        }
    }
}

fn push_num(out: &mut String, n: u64)
    ensures
        final(out)@ == old(out)@ + enc_num(n),
{
    push_digits(out, n, NUM_WIDTH);
}

fn push_str_field(out: &mut String, t: &String)
    ensures
        final(out)@ == old(out)@ + enc_str_field(t@),
{
    let len = t.as_str().unicode_len();
    push_num(out, len as u64);
    out.append(t.as_str());
    proof {
        assert(out@ =~= old(out)@ + enc_str_field(t@));
    }
}

fn push_opt(out: &mut String, o: Option<usize>)
    ensures
        final(out)@ == old(out)@ + enc_opt(o),
{
    match o {
        None => {
            push_char(out, '-');
            push_num(out, 0);
            proof {
                assert(out@ =~= old(out)@ + enc_opt(o));
            }
        },
        Some(v) => {
            push_char(out, '+');
            push_num(out, v as u64);
            proof {
                assert(out@ =~= old(out)@ + enc_opt(o));
            }
        },
    }
}

fn push_obj(out: &mut String, o: &Object)
    ensures
        final(out)@ == old(out)@ + enc_obj(o@),
{
    match o {
        Object::Location(x) => {
            push_char(out, 'L');
            push_str_field(out, &x.name);
            push_str_field(out, &x.description);
            push_char(out, '\n');
            proof {
                assert(out@ =~= old(out)@ + enc_obj(o@));
            }
        },
        Object::Player(x) => {
            push_char(out, 'P');
            push_str_field(out, &x.name);
            push_num(out, x.location as u64);
            push_num(out, x.health);
            push_char(out, '\n');
            proof {
                assert(out@ =~= old(out)@ + enc_obj(o@));
            }
        },
        Object::Weapon(x) => {
            push_char(out, 'W');
            push_str_field(out, &x.name);
            push_str_field(out, &x.description);
            push_opt(out, x.location);
            push_num(out, x.attack_points);
            push_char(out, '\n');
            proof {
                assert(out@ =~= old(out)@ + enc_obj(o@));
            }
        },
        Object::Consumable(x) => {
            push_char(out, 'C');
            push_str_field(out, &x.name);
            push_str_field(out, &x.description);
            push_num(out, x.heal_amount);
            push_opt(out, x.location);
            push_char(out, '\n');
            proof {
                assert(out@ =~= old(out)@ + enc_obj(o@));
            }
        },
        Object::Enemy(x) => {
            push_char(out, 'E');
            push_str_field(out, &x.name);
            push_str_field(out, &x.description);
            push_num(out, x.health);
            push_num(out, x.attack);
            push_num(out, x.location as u64);
            push_char(out, '\n');
            proof {
                assert(out@ =~= old(out)@ + enc_obj(o@));
            }
        },
        Object::Passage(x) => {
            push_char(out, 'G');
            push_str_field(out, &x.name);
            push_str_field(out, &x.description);
            push_opt(out, x.location);
            push_opt(out, x.destination);
            push_char(out, '\n');
            proof {
                assert(out@ =~= old(out)@ + enc_obj(o@));
            }
        },
    }
}

proof fn lemma_enc_list_push(objs: Seq<ObjectV>, o: ObjectV)
    ensures
        enc_list(objs.push(o)) == enc_list(objs) + enc_obj(o),
    decreases objs.len(),
{
    if objs.len() == 0 {
        assert(objs.push(o).drop_first() =~= Seq::<ObjectV>::empty());
        assert(objs.push(o)[0] == o);
        assert(enc_list(objs) == Seq::<char>::empty());
        assert(enc_list(objs.push(o).drop_first()) == Seq::<char>::empty());
        assert(enc_list(objs.push(o)) == enc_obj(o) + enc_list(objs.push(o).drop_first()));
        assert(enc_list(objs.push(o)) =~= enc_list(objs) + enc_obj(o));
    } else {
        lemma_enc_list_push(objs.drop_first(), o);
        assert(objs.push(o).drop_first() =~= objs.drop_first().push(o));
        assert(objs.push(o)[0] == objs[0]);
        assert(enc_list(objs.push(o)) =~= enc_list(objs) + enc_obj(o));
    }
}

/// Serializes a world into its textual form.
pub fn encode(w: &World) -> (r: String)
    ensures
        r@ == spec_encode(w@),
{
    let mut out = String::new();
    push_num(&mut out, w.objects.len() as u64);
    let mut i: usize = 0;
    while i < w.objects.len()
        invariant
            i <= w@.len(),
            w@.len() == w.objects@.len(),
            out@ == enc_num(w@.len() as u64) + enc_list(w@.take(i as int)),
        decreases w@.len() - i,
    {
        push_obj(&mut out, &w.objects[i]);
        proof {
            assert(w@.take(i + 1) =~= w@.take(i as int).push(w@[i as int]));
            lemma_enc_list_push(w@.take(i as int), w@[i as int]);
            assert(out@ =~= enc_num(w@.len() as u64) + enc_list(w@.take(i + 1)));
        }
        i = i + 1;
    }
    proof {
        assert(w@.take(w@.len() as int) =~= w@);
    }
    out
}

/// Deserializes a world from its textual form; anything malformed is
/// rejected.
pub fn decode(s: &str) -> (r: Option<World>)
    ensures
        r is Some <==> spec_decode(s@) is Some,
        r matches Some(w) ==> Some(w@) == spec_decode(s@),
{
    let cs = to_chars(s);
    match parse_usize(&cs, 0) {
        Some((count, p0)) => {
            let mut objects: Vec<Object> = Vec::new();
            let mut pos = p0;
            let mut i: usize = 0;
            proof {
                assert(objects.deep_view() =~= Seq::<ObjectV>::empty());
            }
            while i < count
                invariant
                    i <= count,
                    objects@.len() == i,
                    dec_usize_at(s@, 0) == Some((count, p0 as int)),
                    cs@ == s@,
                    match dec_list_at(cs@, pos as int, (count - i) as nat) {
                        Some((rest, pend)) => dec_list_at(cs@, p0 as int, count as nat) == Some(
                            (objects.deep_view() + rest, pend),
                        ),
                        None => dec_list_at(cs@, p0 as int, count as nat) is None,
                    },
                decreases count - i,
            {
                match parse_obj(&cs, pos) {
                    Some((o, p)) => {
                        let ghost done = objects.deep_view();
                        let ghost ov = o@;
                        objects.push(o);
                        proof {
                            assert(objects.deep_view() =~= done.push(ov));
                            match dec_list_at(cs@, p as int, (count - i - 1) as nat) {
                                Some((rest2, pend)) => {
                                    assert(dec_list_at(cs@, pos as int, (count - i) as nat)
                                        == Some((seq![ov] + rest2, pend)));
                                    assert(done.push(ov) + rest2 =~= done + (seq![ov] + rest2));
                                },
                                None => {},
                            }
                        }
                        pos = p;
                        i = i + 1;
                    },
                    None => {
                        return None;
                    },
                }
            }
            proof {
                assert(dec_list_at(cs@, pos as int, 0) == Some(
                    (Seq::<ObjectV>::empty(), pos as int),
                ));
                assert(objects.deep_view() + Seq::<ObjectV>::empty() =~= objects.deep_view());
            }
            if pos == cs.len() {
                Some(World { objects })
            } else {
                None
            }
        },
        None => None,
    }
}

/// Serializing a world and deserializing the text restores the object
/// sequence exactly: order and every field value are preserved.
pub proof fn lemma_encode_decode_round_trip(objs: Seq<ObjectV>)
    requires
        objs.len() <= usize::MAX,
        forall|i: int| 0 <= i < objs.len() ==> obj_bounded(#[trigger] objs[i]),
    ensures
        spec_decode(spec_encode(objs)) == Some(objs),
{
    let s = spec_encode(objs);
    lemma_num20_shape(objs.len() as int, 20);
    assert(s.subrange(0, 20) =~= enc_num(objs.len() as u64));
    lemma_dec_num_at_enc(s, 0, objs.len() as u64);
    assert(s.subrange(20, s.len() as int) =~= enc_list(objs));
    lemma_dec_list_at_enc(s, 20, objs);
}

} // verus!
