//! The position and direction of the light that runs round the ring of LEDs.

use crate::gesture::ButtonEvent;
use vstd::prelude::*;

verus! {

/// Number of LEDs in the ring.
pub const NUM_LEDS: usize = 8;

/// Which LED of the ring is lit, and which way the light moves.
pub struct Leds {
    direction: i8,
    current_led: usize,
}

/// The position one step from `current` in `direction` round the ring.
pub open spec fn rotated(current: usize, direction: i8) -> int {
    (current + NUM_LEDS + direction) % (NUM_LEDS as int)
}

impl Leds {
    /// The step of the light: 1 or -1.
    pub closed spec fn direction(&self) -> i8 {
        self.direction
    }

    /// The index of the LED that is lit.
    pub closed spec fn current_led(&self) -> usize {
        self.current_led
    }

    #[verifier::type_invariant]
    spec fn inv(&self) -> bool {
        &&& self.direction == 1 || self.direction == -1
        &&& self.current_led < NUM_LEDS
    }

    /// The light at the first LED, moving up.
    pub fn new() -> (leds: Leds)
        ensures
            leds.direction() == 1,
            leds.current_led() == 0,
    {
        Leds { direction: 1, current_led: 0 }
    }

    /// The index of the LED that is lit.
    pub fn current(&self) -> (index: usize)
        ensures
            index == self.current_led(),
            index < NUM_LEDS,
    {
        proof {
            use_type_invariant(self);
        }
        self.current_led
    }

    /// The step of the light: 1 while it moves up, -1 while it moves down.
    pub fn heading(&self) -> (step: i8)
        ensures
            step == self.direction(),
            step == 1 || step == -1,
    {
        proof {
            use_type_invariant(self);
        }
        self.direction
    }

    /// Turns the light round.
    pub fn reverse_direction(&mut self)
        ensures
            final(self).direction() == -old(self).direction(),
            final(self).current_led() == old(self).current_led(),
    {
        proof {
            use_type_invariant(&*self);
        }
        self.direction = -self.direction;
    }

    /// Moves the light one LED on in its direction, round the ring.
    pub fn rotate(&mut self)
        ensures
            final(self).direction() == old(self).direction(),
            final(self).current_led() == rotated(old(self).current_led(), old(self).direction()),
    {
        proof {
            use_type_invariant(&*self);
        }
        let current: usize = self.current_led;
        let unwrapped: usize = if self.direction > 0 {
            current + 1
        } else {
            8 + current - 1
        };
        assert(unwrapped & 7 == unwrapped % 8) by (bit_vector);
        self.current_led = unwrapped & 7;
    }

    /// Applies a gesture: a single click moves the light on, a double click
    /// turns it round and moves it on, a hold leaves it where it is. The
    /// answer says whether the gesture asks for the ring to flash.
    pub fn process_event(&mut self, event: ButtonEvent) -> (flash: bool)
        ensures
            flash == (event == ButtonEvent::Hold),
            event == ButtonEvent::SingleClick ==> final(self).direction() == old(self).direction()
                && final(self).current_led() == rotated(
                old(self).current_led(),
                old(self).direction(),
            ),
            event == ButtonEvent::DoubleClick ==> final(self).direction() == -old(self).direction()
                && final(self).current_led() == rotated(
                old(self).current_led(),
                (-old(self).direction()) as i8,
            ),
            event == ButtonEvent::Hold ==> final(self).direction() == old(self).direction()
                && final(self).current_led() == old(self).current_led(),
    {
        match event {
            ButtonEvent::SingleClick => {
                self.rotate();
                false
            },
            ButtonEvent::DoubleClick => {
                self.reverse_direction();
                self.rotate();
                false
            },
            ButtonEvent::Hold => true,
        }
    }
}

} // verus!
