use vstd::prelude::*;

use crate::date::{fill_between, Date};

verus! {

/// Where a month slider stands.
#[derive(Default, Debug, Clone, Copy, PartialEq, Eq, Structural)]
pub enum SliderState {
    /// On the first month.
    First,
    /// On the last month.
    Last,
    /// On the month at this position.
    At(usize),
    /// Not placed yet: the middle month.
    #[default]
    Unset,
}

/// The position a slider state stands for among `len` months; `None` without months.
pub open spec fn state_idx(state: SliderState, len: int) -> Option<int> {
    if len > 0 {
        Some(
            match state {
                SliderState::First => 0,
                SliderState::Last => len - 1,
                SliderState::At(idx) => idx as int,
                SliderState::Unset => len / 2,
            },
        )
    } else {
        None
    }
}

impl SliderState {
    pub fn slider_idx(&self, len_positions: usize) -> (r: Option<usize>)
        ensures
            r is Some <==> state_idx(*self, len_positions as int) is Some,
            r is Some ==> state_idx(*self, len_positions as int) == Some(r->Some_0 as int),
    {
        if len_positions > 0 {
            Some(
                match self {
                    SliderState::First => 0,
                    SliderState::Last => len_positions - 1,
                    SliderState::At(idx) => *idx,
                    SliderState::Unset => len_positions / 2,
                },
            )
        } else {
            None
        }
    }
}

/// A slider over the consecutive months of a range.
#[derive(Default, Debug, Clone)]
pub struct MonthSlider {
    slider_state: SliderState,
    possible_dates: Vec<Date>,
}

impl MonthSlider {
    pub closed spec fn state(self) -> SliderState {
        self.slider_state
    }

    pub closed spec fn dates(self) -> Seq<Date> {
        self.possible_dates@
    }

    pub open spec fn idx(self) -> Option<int> {
        state_idx(self.state(), self.dates().len() as int)
    }

    /// The selected month; `None` without months or when the position lies outside them.
    pub open spec fn selected(self) -> Option<Date> {
        match self.idx() {
            Some(i) => if 0 <= i < self.dates().len() {
                Some(self.dates()[i])
            } else {
                None
            },
            None => None,
        }
    }

    pub open spec fn can_move_left(self) -> bool {
        self.idx() matches Some(i) && i > 0
    }

    pub open spec fn can_move_right(self) -> bool {
        self.idx() matches Some(i) && i < self.dates().len() - 1
    }

    pub open spec fn is_initialized_spec(self) -> bool {
        self.dates().len() > 0
    }

    pub open spec fn at_start(self) -> bool {
        self.idx() == Some(0int)
    }

    pub open spec fn at_end(self) -> bool {
        self.dates().len() > 0 && self.idx() == Some(self.dates().len() - 1)
    }

    /// A slider over the months from `start_date` through `end_date`.
    pub fn new(start_date: Date, end_date: Date, start_slider_state: SliderState) -> (r: Self)
        ensures
            r.state() == start_slider_state,
            start_date.count() <= end_date.count() ==> r.dates().len() == end_date.count()
                - start_date.count() + 1,
            start_date.count() > end_date.count() ==> r.dates() == seq![start_date],
            forall|i: int| 0 <= i < r.dates().len() ==> #[trigger] r.dates()[i] == start_date.after(i),
    {
        MonthSlider {
            slider_state: start_slider_state,
            possible_dates: fill_between(start_date, end_date),
        }
    }

    pub fn is_initialized(&self) -> (r: bool)
        ensures
            r == (self.dates().len() > 0),
    {
        self.possible_dates.len() > 0
    }

    pub fn is_at_start(&self) -> (r: bool)
        ensures
            r == self.at_start(),
    {
        match self.slider_idx() {
            Some(idx) => idx == 0,
            None => false,
        }
    }

    pub fn is_at_end(&self) -> (r: bool)
        ensures
            r == self.at_end(),
    {
        match self.slider_idx() {
            Some(idx) => idx == self.possible_dates.len() - 1,
            None => false,
        }
    }

    /// One month to the left, where there is one.
    pub fn move_left(&mut self)
        ensures
            final(self).dates() == old(self).dates(),
            old(self).can_move_left() ==> final(self).state() == SliderState::At(
                (old(self).idx()->Some_0 - 1) as usize,
            ) && final(self).idx() == Some(old(self).idx()->Some_0 - 1),
            !old(self).can_move_left() ==> *final(self) == *old(self),
    {
        if let Some(idx) = self.slider_idx() {
            if idx > 0 {
                self.slider_state = SliderState::At(idx - 1);
            }
        }
    }

    /// One month to the right, where there is one.
    pub fn move_right(&mut self)
        ensures
            final(self).dates() == old(self).dates(),
            old(self).can_move_right() ==> final(self).state() == SliderState::At(
                (old(self).idx()->Some_0 + 1) as usize,
            ) && final(self).idx() == Some(old(self).idx()->Some_0 + 1),
            !old(self).can_move_right() ==> *final(self) == *old(self),
    {
        if let Some(idx) = self.slider_idx() {
            if idx < self.possible_dates.len() - 1 {
                self.slider_state = SliderState::At(idx + 1);
            }
        }
    }

    /// Whether a move to the left changes the position.
    pub fn can_go_left(&self) -> (r: bool)
        ensures
            r == self.can_move_left(),
    {
        match self.slider_idx() {
            Some(idx) => idx > 0,
            None => false,
        }
    }

    /// Whether a move to the right changes the position.
    pub fn can_go_right(&self) -> (r: bool)
        ensures
            r == self.can_move_right(),
    {
        match self.slider_idx() {
            Some(idx) => idx < self.possible_dates.len() - 1,
            None => false,
        }
    }

    pub fn slider_idx(&self) -> (r: Option<usize>)
        ensures
            r is Some <==> self.idx() is Some,
            r is Some ==> self.idx() == Some(r->Some_0 as int),
    {
        self.slider_state.slider_idx(self.possible_dates.len())
    }

    pub fn selected_date(&self) -> (r: Option<Date>)
        ensures
            r == self.selected(),
    {
        match self.slider_idx() {
            Some(idx) => if idx < self.possible_dates.len() {
                Some(self.possible_dates[idx])
            } else {
                None
            },
            None => None,
        }
    }
}

/// `a` is not after `b`, where no selection counts as earliest.
pub open spec fn not_after(a: Option<Date>, b: Option<Date>) -> bool {
    match (a, b) {
        (None, _) => true,
        (Some(_), None) => false,
        (Some(x), Some(y)) => x.count() <= y.count(),
    }
}

fn exec_not_after(a: Option<Date>, b: Option<Date>) -> (r: bool)
    ensures
        r == not_after(a, b),
{
    match (a, b) {
        (None, _) => true,
        (Some(_), None) => false,
        (Some(x), Some(y)) => !y.is_before(&x),
    }
}

/// A start and an end slider whose selections are kept in order.
#[derive(Default, Debug, Clone)]
pub struct MonthSliderPair {
    start_slider: MonthSlider,
    end_slider: MonthSlider,
}

impl MonthSliderPair {
    pub closed spec fn start(self) -> MonthSlider {
        self.start_slider
    }

    pub closed spec fn end(self) -> MonthSlider {
        self.end_slider
    }

    pub fn new(start_slider: MonthSlider, end_slider: MonthSlider) -> (r: Self)
        ensures
            r.start() == start_slider,
            r.end() == end_slider,
    {
        Self { start_slider, end_slider }
    }

    /// After the start slider moved: the start leaves the last month, and the end moves
    /// right until it lies after the start or can go no further.
    pub fn start_moved(&mut self)
        ensures
            old(self).start().at_end() && old(self).start().can_move_left() ==> final(self).start().idx() == Some(old(self).start().idx()->Some_0 - 1),
            !(old(self).start().at_end() && old(self).start().can_move_left()) ==> final(self).start() == old(self).start(),
            final(self).start().dates() == old(self).start().dates(),
            final(self).end().dates() == old(self).end().dates(),
            final(self).start().is_initialized_spec() ==> !not_after(
                final(self).end().selected(),
                final(self).start().selected(),
            ) || !final(self).end().can_move_right(),
    {
        if self.start_slider.is_at_end() {
            self.start_slider.move_left();
        }
        while self.start_slider.is_initialized() && exec_not_after(
            self.end_slider.selected_date(),
            self.start_slider.selected_date(),
        ) && self.end_slider.can_go_right()
            invariant
                self.start().dates() == old(self).start().dates(),
                self.end().dates() == old(self).end().dates(),
                old(self).start().at_end() && old(self).start().can_move_left() ==> self.start().idx()
                    == Some(old(self).start().idx()->Some_0 - 1),
                !(old(self).start().at_end() && old(self).start().can_move_left()) ==> self.start()
                    == old(self).start(),
            decreases self.end().dates().len() - self.end().idx()->Some_0,
        {
            self.end_slider.move_right();
        }
    }

    /// After the end slider moved: the end leaves the first month, and the start moves
    /// left until it lies before the end or can go no further.
    pub fn end_moved(&mut self)
        ensures
            old(self).end().at_start() && old(self).end().can_move_right() ==> final(self).end().idx() == Some(old(self).end().idx()->Some_0 + 1),
            !(old(self).end().at_start() && old(self).end().can_move_right()) ==> final(self).end() == old(self).end(),
            final(self).start().dates() == old(self).start().dates(),
            final(self).end().dates() == old(self).end().dates(),
            final(self).end().is_initialized_spec() ==> !not_after(
                final(self).end().selected(),
                final(self).start().selected(),
            ) || !final(self).start().can_move_left(),
    {
        if self.end_slider.is_at_start() {
            self.end_slider.move_right();
        }
        while self.end_slider.is_initialized() && exec_not_after(
            self.end_slider.selected_date(),
            self.start_slider.selected_date(),
        ) && self.start_slider.can_go_left()
            invariant
                self.start().dates() == old(self).start().dates(),
                self.end().dates() == old(self).end().dates(),
                old(self).end().at_start() && old(self).end().can_move_right() ==> self.end().idx()
                    == Some(old(self).end().idx()->Some_0 + 1),
                !(old(self).end().at_start() && old(self).end().can_move_right()) ==> self.end()
                    == old(self).end(),
            decreases self.start().idx()->Some_0,
        {
            self.start_slider.move_left();
        }
    }

    pub fn selected_start_date(&self) -> (r: Option<Date>)
        ensures
            r == self.start().selected(),
    {
        self.start_slider.selected_date()
    }

    pub fn selected_end_date(&self) -> (r: Option<Date>)
        ensures
            r == self.end().selected(),
    {
        self.end_slider.selected_date()
    }
}

} // verus!
