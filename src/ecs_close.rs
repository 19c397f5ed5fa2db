use vstd::prelude::*;

verus! {

/// Closes every focused window when Escape is pressed.
#[derive(Debug, Default, Clone, Copy)]
pub struct CloseOnEscPlugin;

/// The windows to close this frame: given whether each window has focus and
/// whether Escape was just pressed, the indices of the focused windows when
/// Escape was pressed, in increasing order; none otherwise.
pub fn close_on_esc(focused: &Vec<bool>, escape_pressed: bool) -> (r: Vec<usize>)
    ensures
        r@ == closing_windows(focused@, escape_pressed),
{
    let mut r: Vec<usize> = Vec::new();
    let mut i: usize = 0;
    while i < focused.len()
        invariant
            i <= focused.len(),
            r@ == closing_windows(focused@.take(i as int), escape_pressed),
        decreases focused.len() - i,
    {
        proof {
            assert(focused@.take(i as int + 1).drop_last() == focused@.take(i as int));
        }
        if focused[i] && escape_pressed {
            r.push(i);
        }
        i = i + 1;
    }
    proof {
        assert(focused@.take(focused@.len() as int) == focused@);
    }
    r
}

/// Indices of the windows in `focused` that close: those that have focus,
/// provided Escape was pressed.
pub open spec fn closing_windows(focused: Seq<bool>, escape_pressed: bool) -> Seq<usize>
    decreases focused.len(),
{
    if focused.len() == 0 {
        seq![]
    } else {
        let rest = closing_windows(focused.drop_last(), escape_pressed);
        if focused.last() && escape_pressed {
            rest.push((focused.len() - 1) as usize)
        } else {
            rest
        }
    }
}

} // verus!
