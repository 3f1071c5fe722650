use crate::output::{listed, output_views, raw_views, Output, RawOutput};
use vstd::prelude::*;
use vstd::string::*;

verus! {

/// The ten decimal digits, in order.
pub open spec fn digits() -> Seq<char> {
    "0123456789"@
}

/// The decimal digits of `n`, most significant first, without leading zeros.
pub open spec fn decimal(n: nat) -> Seq<char>
    decreases n,
{
    let last = digits().subrange((n % 10) as int, (n % 10) as int + 1);
    if n < 10 {
        last
    } else {
        decimal(n / 10) + last
    }
}

/// `n` written in decimal, with a leading `-` when it is negative.
pub open spec fn signed_decimal(n: int) -> Seq<char> {
    if n < 0 {
        "-"@ + decimal((-n) as nat)
    } else {
        decimal(n as nat)
    }
}

/// The compositor command that moves output `name` to `(x, y)`.
pub open spec fn command_text(name: Seq<char>, x: int, y: int) -> Seq<char> {
    "output "@ + name + " pos "@ + signed_decimal(x) + " "@ + signed_decimal(y)
}

/// The sum of the widths of the first `i` outputs: where output `i` begins.
pub open spec fn offset(outputs: Seq<(Seq<char>, i32)>, i: int) -> int
    decreases i,
{
    if i <= 0 {
        0
    } else {
        offset(outputs, i - 1) + outputs[i - 1].1
    }
}

/// Every output's position fits in the compositor's coordinate type.
pub open spec fn offsets_fit(outputs: Seq<(Seq<char>, i32)>) -> bool {
    forall|i: int|
        0 <= i < outputs.len() ==> i32::MIN <= #[trigger] offset(outputs, i) <= i32::MAX
}

/// The commands that put the outputs in one row, in the order given: output
/// `i` goes to X = the widths before it, Y = 0.
pub open spec fn layout_commands(outputs: Seq<(Seq<char>, i32)>) -> Seq<Seq<char>> {
    Seq::new(outputs.len(), |i: int| command_text(outputs[i].0, offset(outputs, i), 0))
}

pub open spec fn string_views(strings: Seq<String>) -> Seq<Seq<char>> {
    strings.map_values(|s: String| s@)
}

fn push_decimal(s: &mut String, n: u32)
    ensures
        final(s)@ == old(s)@ + decimal(n as nat),
    decreases n,
{
    if n >= 10 {
        push_decimal(s, n / 10);
    }
    let d = (n % 10) as usize;
    proof {
        reveal_strlit("0123456789");
    }
    let digit = "0123456789".substring_char(d, d + 1);
    s.append(digit);
    if n >= 10 {
        assert(s@ =~= old(s)@ + decimal(n as nat));
    }
}

fn push_signed_decimal(s: &mut String, n: i32)
    ensures
        final(s)@ == old(s)@ + signed_decimal(n as int),
{
    if n < 0 {
        s.append("-");
        push_decimal(s, (-(n as i64)) as u32);
        assert(s@ =~= old(s)@ + signed_decimal(n as int));
    } else {
        push_decimal(s, n as u32);
    }
}

/// The command that moves output `screen_name` to `(x, y)`.
pub fn position_command(screen_name: &str, x: i32, y: i32) -> (r: String)
    ensures
        r@ == command_text(screen_name@, x as int, y as int),
{
    let mut s = String::new();
    s.append("output ");
    s.append(screen_name);
    s.append(" pos ");
    push_signed_decimal(&mut s, x);
    s.append(" ");
    push_signed_decimal(&mut s, y);
    assert(s@ =~= command_text(screen_name@, x as int, y as int));
    s
}

/// The commands that put `outputs` in one row, left to right, in the order
/// given. `None` when some output's position would not fit in an `i32`.
pub fn arrange(outputs: &Vec<Output>) -> (r: Option<Vec<String>>)
    ensures
        r is Some <==> offsets_fit(output_views(outputs@)),
        r is Some ==> string_views(r->Some_0@) == layout_commands(output_views(outputs@)),
{
    let ghost views = output_views(outputs@);
    let mut commands: Vec<String> = Vec::new();
    let mut x: i64 = 0;
    let mut i: usize = 0;
    while i < outputs.len()
        invariant
            i <= outputs.len(),
            views == output_views(outputs@),
            x == offset(views, i as int),
            -0x1_0000_0000 <= x <= 0x1_0000_0000,
            forall|k: int| 0 <= k < i ==> i32::MIN <= #[trigger] offset(views, k) <= i32::MAX,
            commands.len() == i,
            forall|k: int|
                0 <= k < i ==> (#[trigger] commands@[k])@ == command_text(
                    views[k].0,
                    offset(views, k),
                    0,
                ),
        decreases outputs.len() - i,
    {
        if x < i32::MIN as i64 || x > i32::MAX as i64 {
            assert(!offsets_fit(views));
            return None;
        }
        let command = position_command(outputs[i].name.as_str(), x as i32, 0);
        commands.push(command);
        x = x + outputs[i].width as i64;
        i += 1;
    }
    assert(string_views(commands@) =~= layout_commands(views));
    Some(commands)
}

/// Removing an output that has no current mode from what the compositor
/// reported changes neither the outputs that are placed nor any command: such
/// an output never affects where the others go.
pub proof fn lemma_output_without_mode_ignored(raw: Seq<RawOutput>, j: int)
    requires
        0 <= j < raw.len(),
        raw[j].current_width is None,
    ensures
        listed(raw_views(raw)) == listed(raw_views(raw.remove(j))),
        offsets_fit(listed(raw_views(raw))) == offsets_fit(listed(raw_views(raw.remove(j)))),
        layout_commands(listed(raw_views(raw))) == layout_commands(
            listed(raw_views(raw.remove(j))),
        ),
{
    assert(raw_views(raw.remove(j)) =~= raw_views(raw).remove(j));
    lemma_listed_skips_missing_mode(raw_views(raw), j);
}

proof fn lemma_listed_skips_missing_mode(raw: Seq<(Seq<char>, Option<i32>)>, j: int)
    requires
        0 <= j < raw.len(),
        raw[j].1 is None,
    ensures
        listed(raw) == listed(raw.remove(j)),
    decreases raw.len(),
{
    if j == raw.len() - 1 {
        assert(raw.remove(j) =~= raw.drop_last());
    } else {
        assert(raw.remove(j).drop_last() =~= raw.drop_last().remove(j));
        lemma_listed_skips_missing_mode(raw.drop_last(), j);
    }
}

/// When no reported output has a current mode, nothing is placed: the
/// arrangement succeeds with no command at all.
pub proof fn lemma_no_valid_outputs_no_commands(raw: Seq<RawOutput>)
    requires
        forall|i: int| 0 <= i < raw.len() ==> (#[trigger] raw[i]).current_width is None,
    ensures
        listed(raw_views(raw)) == Seq::<(Seq<char>, i32)>::empty(),
        offsets_fit(listed(raw_views(raw))),
        layout_commands(listed(raw_views(raw))) == Seq::<Seq<char>>::empty(),
{
    lemma_listed_empty(raw_views(raw));
    assert(layout_commands(listed(raw_views(raw))) =~= Seq::<Seq<char>>::empty());
}

proof fn lemma_listed_empty(raw: Seq<(Seq<char>, Option<i32>)>)
    requires
        forall|i: int| 0 <= i < raw.len() ==> (#[trigger] raw[i]).1 is None,
    ensures
        listed(raw) == Seq::<(Seq<char>, i32)>::empty(),
    decreases raw.len(),
{
    if raw.len() > 0 {
        lemma_listed_empty(raw.drop_last());
    }
}

/// The arrangement depends on the outputs' names and widths alone: arranging
/// twice with the same names and widths gives the same commands.
pub proof fn lemma_arrangement_repeatable(first: Seq<Output>, second: Seq<Output>)
    requires
        output_views(first) == output_views(second),
    ensures
        offsets_fit(output_views(first)) == offsets_fit(output_views(second)),
        layout_commands(output_views(first)) == layout_commands(output_views(second)),
{
}

} // verus!
