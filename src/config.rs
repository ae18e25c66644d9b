//! Command-line arguments and the configuration made of them.
//!
//! A colour argument is three channel values separated by single spaces, in
//! red, green, blue order, such as `"255 0 0"`. Each value is written as the
//! standard library's unsigned integer parser accepts it: an optional `+`
//! followed by one or more decimal digits, with a value of at most 255.

use vstd::prelude::*;
use vstd::string::*;

use crate::color::Criterion;

verus! {

/// The arguments as given on the command line.
pub struct Args {
    pub input_image: String,
    pub target_image: String,
    pub origin_color: String,
    pub target_color: String,
}

/// The checked configuration of one run.
pub struct Config {
    pub input_image: String,
    pub target_image: String,
    pub origin_color: (u8, u8, u8),
    pub target_color: (u8, u8, u8),
}

/// Why a set of arguments was refused.
#[derive(Clone, Copy, Debug, PartialEq, Eq, Structural)]
pub enum ConfigError {
    /// The input image is not an existing regular file.
    MissingInputImage,
    /// The origin colour is not three channel values.
    InvalidOriginColor,
    /// The target colour is not three channel values.
    InvalidTargetColor,
}

pub open spec fn is_digit(c: char) -> bool {
    '0' <= c && c <= '9'
}

pub open spec fn digit_value(c: char) -> nat {
    (c as nat - '0' as nat) as nat
}

/// The number that a sequence of decimal digits denotes.
pub open spec fn decimal_value(s: Seq<char>) -> nat
    decreases s.len(),
{
    if s.len() == 0 {
        0
    } else {
        decimal_value(s.drop_last()) * 10 + digit_value(s.last())
    }
}

/// The digits of a channel value, after an optional leading `+`.
pub open spec fn unsigned_digits(s: Seq<char>) -> Seq<char> {
    if s.len() > 0 && s[0] == '+' {
        s.drop_first()
    } else {
        s
    }
}

/// The channel value that `s` denotes, if it denotes one.
pub open spec fn channel_value(s: Seq<char>) -> Option<u8> {
    let d = unsigned_digits(s);
    if d.len() > 0 && (forall|i: int| 0 <= i < d.len() ==> is_digit(#[trigger] d[i]))
        && decimal_value(d) <= 255 {
        Some(decimal_value(d) as u8)
    } else {
        None
    }
}

/// The pieces of `s` between single spaces; there is always at least one.
pub open spec fn fields(s: Seq<char>) -> Seq<Seq<char>>
    decreases s.len(),
{
    if s.len() == 0 {
        seq![Seq::empty()]
    } else {
        let f = fields(s.drop_last());
        if s.last() == ' ' {
            f.push(Seq::empty())
        } else {
            f.update(f.len() - 1, f.last().push(s.last()))
        }
    }
}

/// The colour that `s` denotes, as `(red, green, blue)`, if it denotes one.
pub open spec fn color_value(s: Seq<char>) -> Option<(u8, u8, u8)> {
    let f = fields(s);
    if f.len() == 3 && channel_value(f[0]) is Some && channel_value(f[1]) is Some
        && channel_value(f[2]) is Some {
        Some((channel_value(f[0])->0, channel_value(f[1])->0, channel_value(f[2])->0))
    } else {
        None
    }
}

/// The channel value written in `s` between character positions `start`
/// and `end`.
fn parse_channel(s: &str, start: usize, end: usize) -> (r: Option<u8>)
    requires
        start <= end <= s@.len(),
    ensures
        r == channel_value(s@.subrange(start as int, end as int)),
{
    let ghost t = s@.subrange(start as int, end as int);
    let mut first: usize = start;
    if start < end && s.get_char(start) == '+' {
        first = start + 1;
    }
    let ghost d = s@.subrange(first as int, end as int);
    assert(unsigned_digits(t) =~= d);
    if first == end {
        return None;
    }
    let mut value: u16 = 0;
    let mut overflow = false;
    let mut i: usize = first;
    while i < end
        invariant
            first <= i <= end <= s@.len(),
            d == s@.subrange(first as int, end as int),
            unsigned_digits(s@.subrange(start as int, end as int)) == d,
            forall|k: int| first <= k < i ==> is_digit(#[trigger] s@[k]),
            !overflow ==> value as nat == decimal_value(s@.subrange(first as int, i as int)),
            !overflow ==> value <= 255,
            overflow ==> decimal_value(s@.subrange(first as int, i as int)) > 255,
        decreases end - i,
    {
        let c = s.get_char(i);
        if !('0' <= c && c <= '9') {
            assert(!is_digit(d[i - first]));
            return None;
        }
        let ghost prefix = s@.subrange(first as int, i as int + 1);
        assert(prefix.drop_last() =~= s@.subrange(first as int, i as int));
        assert(prefix.last() == c);
        if !overflow {
            let next: u16 = value * 10 + (c as u16 - '0' as u16);
            if next > 255 {
                overflow = true;
            } else {
                value = next;
            }
        }
        i = i + 1;
    }
    assert(s@.subrange(first as int, end as int) =~= d);
    assert forall|k: int| 0 <= k < d.len() implies is_digit(#[trigger] d[k]) by {
        assert(d[k] == s@[first + k]);
    }
    if overflow {
        None
    } else {
        Some(value as u8)
    }
}

/// The colour written in `s` as three space-separated channel values, in
/// red, green, blue order; `None` when `s` is not of that form.
pub fn parse_color(s: &str) -> (r: Option<(u8, u8, u8)>)
    ensures
        r == color_value(s@),
{
    let n = s.unicode_len();
    let mut starts: Vec<usize> = Vec::new();
    let mut ends: Vec<usize> = Vec::new();
    let mut cur: usize = 0;
    let mut i: usize = 0;
    assert(s@.subrange(0, 0) =~= Seq::<char>::empty());
    assert(Seq::new(0, |k: int| s@.subrange(starts@[k] as int, ends@[k] as int)).push(
        s@.subrange(0, 0),
    ) =~= seq![Seq::<char>::empty()]);
    while i < n
        invariant
            n == s@.len(),
            i <= n,
            cur <= i,
            starts@.len() == ends@.len(),
            forall|k: int| 0 <= k < starts@.len() ==> #[trigger] starts@[k] <= ends@[k] <= i,
            fields(s@.subrange(0, i as int)) == Seq::new(
                starts@.len(),
                |k: int| s@.subrange(starts@[k] as int, ends@[k] as int),
            ).push(s@.subrange(cur as int, i as int)),
        decreases n - i,
    {
        let c = s.get_char(i);
        let ghost before = Seq::new(
            starts@.len(),
            |k: int| s@.subrange(starts@[k] as int, ends@[k] as int),
        );
        let ghost pre = s@.subrange(0, i as int + 1);
        let ghost old_starts = starts@;
        let ghost old_ends = ends@;
        assert(pre.drop_last() =~= s@.subrange(0, i as int));
        assert(pre.last() == c);
        if c == ' ' {
            starts.push(cur);
            ends.push(i);
            cur = i + 1;
            assert(Seq::new(starts@.len(), |k: int| s@.subrange(starts@[k] as int, ends@[k] as int))
                =~= before.push(s@.subrange(starts@.last() as int, i as int)));
            assert(s@.subrange(cur as int, cur as int) =~= Seq::<char>::empty());
        } else {
            assert(s@.subrange(cur as int, i as int).push(c) =~= s@.subrange(
                cur as int,
                i as int + 1,
            ));
            assert(fields(pre) =~= before.push(s@.subrange(cur as int, i as int + 1)));
        }
        assert forall|k: int| 0 <= k < starts@.len() implies #[trigger] starts@[k] <= ends@[k]
            <= i + 1 by {
            if k < old_starts.len() {
                assert(starts@[k] == old_starts[k] && ends@[k] == old_ends[k]);
            }
        }
        i = i + 1;
    }
    assert(s@.subrange(0, n as int) =~= s@);
    if starts.len() != 2 {
        return None;
    }
    let red = parse_channel(s, starts[0], ends[0]);
    let green = parse_channel(s, starts[1], ends[1]);
    let blue = parse_channel(s, cur, n);
    match (red, green, blue) {
        (Some(r), Some(g), Some(b)) => Some((r, g, b)),
        _ => None,
    }
}

impl Config {
    /// The colour criterion of this configuration.
    pub fn criterion(&self) -> (r: Criterion)
        ensures
            r.origin_color == self.origin_color,
            r.target_color == self.target_color,
    {
        Criterion { origin_color: self.origin_color, target_color: self.target_color }
    }
}

/// Checks the arguments and builds the configuration. `input_is_file`
/// tells whether the input image names an existing regular file.
pub fn parse_args(args: Args, input_is_file: bool) -> (r: Result<Config, ConfigError>)
    ensures
        r is Ok <==> input_is_file && color_value(args.origin_color@) is Some
            && color_value(args.target_color@) is Some,
        !input_is_file ==> r == Err::<Config, ConfigError>(ConfigError::MissingInputImage),
        input_is_file && color_value(args.origin_color@) is None ==> r == Err::<
            Config,
            ConfigError,
        >(ConfigError::InvalidOriginColor),
        input_is_file && color_value(args.origin_color@) is Some && color_value(
            args.target_color@,
        ) is None ==> r == Err::<Config, ConfigError>(ConfigError::InvalidTargetColor),
        r matches Ok(c) ==> {
            &&& c.input_image@ == args.input_image@
            &&& c.target_image@ == args.target_image@
            &&& color_value(args.origin_color@) == Some(c.origin_color)
            &&& color_value(args.target_color@) == Some(c.target_color)
        },
{
    if !input_is_file {
        return Err(ConfigError::MissingInputImage);
    }
    let origin_color = match parse_color(args.origin_color.as_str()) {
        Some(c) => c,
        None => {
            return Err(ConfigError::InvalidOriginColor);
        },
    };
    let target_color = match parse_color(args.target_color.as_str()) {
        Some(c) => c,
        None => {
            return Err(ConfigError::InvalidTargetColor);
        },
    };
    Ok(
        Config {
            input_image: args.input_image,
            target_image: args.target_image,
            origin_color,
            target_color,
        },
    )
}

} // verus!
