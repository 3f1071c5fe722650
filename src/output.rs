use crate::error::Error;
use vstd::prelude::*;

verus! {

/// What the compositor reported of one output, as far as the layout reads it:
/// its name, and the width of its current mode if it has one.
pub struct RawOutput {
    pub name: String,
    pub current_width: Option<i32>,
}

impl View for RawOutput {
    type V = (Seq<char>, Option<i32>);

    open spec fn view(&self) -> (Seq<char>, Option<i32>) {
        (self.name@, self.current_width)
    }
}

/// An output that can be placed: its name and the width of its current mode.
pub struct Output {
    pub name: String,
    pub width: i32,
}

impl View for Output {
    type V = (Seq<char>, i32);

    open spec fn view(&self) -> (Seq<char>, i32) {
        (self.name@, self.width)
    }
}

/// The reason given for an output that has no current mode.
pub open spec fn lacks_current_mode() -> Seq<char> {
    "Output lacks current mode"@
}

pub open spec fn raw_views(raw: Seq<RawOutput>) -> Seq<(Seq<char>, Option<i32>)> {
    raw.map_values(|r: RawOutput| r@)
}

pub open spec fn output_views(outputs: Seq<Output>) -> Seq<(Seq<char>, i32)> {
    outputs.map_values(|o: Output| o@)
}

/// The outputs that have a current mode, in the order reported, each with the
/// width of that mode.
pub open spec fn listed(raw: Seq<(Seq<char>, Option<i32>)>) -> Seq<(Seq<char>, i32)>
    decreases raw.len(),
{
    if raw.len() == 0 {
        seq![]
    } else {
        let rest = listed(raw.drop_last());
        match raw.last().1 {
            Some(w) => rest.push((raw.last().0, w)),
            None => rest,
        }
    }
}

/// How many of the reported outputs have no current mode.
pub open spec fn unlisted_count(raw: Seq<(Seq<char>, Option<i32>)>) -> nat
    decreases raw.len(),
{
    if raw.len() == 0 {
        0
    } else {
        unlisted_count(raw.drop_last()) + if raw.last().1 is None {
            1nat
        } else {
            0nat
        }
    }
}

impl Output {
    /// Turns a reported output into one that can be placed; one without a
    /// current mode is refused.
    pub fn try_from(value: &RawOutput) -> (r: Result<Output, Error>)
        ensures
            value.current_width is Some ==> r is Ok && r->Ok_0@ == (
            value.name@,
            value.current_width->Some_0,
            ),
            value.current_width is None ==> r is Err && r->Err_0 is Plain && r->Err_0->Plain_0@
                == lacks_current_mode(),
    {
        match value.current_width {
            Some(width) => Ok(Output { name: value.name.clone(), width }),
            None => Err(Error::Plain("Output lacks current mode")),
        }
    }
}

/// Splits the reported outputs into those that can be placed, in the order
/// reported, and one error for each output that has no current mode.
pub fn get_sway_outputs(raw: &Vec<RawOutput>) -> (r: (Vec<Output>, Vec<Error>))
    ensures
        output_views(r.0@) == listed(raw_views(raw@)),
        r.1.len() == unlisted_count(raw_views(raw@)),
        forall|k: int|
            0 <= k < r.1.len() ==> (#[trigger] r.1[k]) is Plain && r.1[k]->Plain_0@
                == lacks_current_mode(),
{
    let mut outputs: Vec<Output> = Vec::new();
    let mut rejected: Vec<Error> = Vec::new();
    let mut i: usize = 0;
    while i < raw.len()
        invariant
            i <= raw.len(),
            output_views(outputs@) == listed(raw_views(raw@).take(i as int)),
            rejected.len() == unlisted_count(raw_views(raw@).take(i as int)),
            forall|k: int|
                0 <= k < rejected.len() ==> (#[trigger] rejected[k]) is Plain
                    && rejected[k]->Plain_0@ == lacks_current_mode(),
        decreases raw.len() - i,
    {
        let ghost before = raw_views(raw@).take(i as int);
        let ghost after = raw_views(raw@).take(i + 1);
        assert(after.drop_last() =~= before);
        assert(after.last() == raw@[i as int]@);
        match Output::try_from(&raw[i]) {
            Ok(o) => {
                outputs.push(o);
                assert(output_views(outputs@) =~= output_views(outputs@).drop_last().push(
                    outputs@.last()@,
                ));
            },
            Err(e) => {
                rejected.push(e);
            },
        }
        i += 1;
    }
    assert(raw_views(raw@).take(raw.len() as int) =~= raw_views(raw@));
    (outputs, rejected)
}

} // verus!
