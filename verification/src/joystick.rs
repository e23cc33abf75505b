use vstd::prelude::*;
use crate::errors::JoyError;
use crate::keys::{spec_translate, translate, KeyEvent, Level, BUTTON_COUNT};

verus! {

/// No two entries of `s` name the same pin.
pub open spec fn spec_distinct(s: Seq<u8>) -> bool {
    forall|i: int, j: int| 0 <= i < j < s.len() ==> s[i] != s[j]
}

/// One step of the lifecycle controller, for the driver around the library to
/// perform against the real hardware. Startup and shutdown are each a fixed
/// sequence of these, produced by `Joystick::startup_steps` and
/// `Joystick::shutdown_steps`.
#[derive(Clone, Copy, Debug, PartialEq, Eq, Structural)]
pub enum Step {
    /// Lock the GPIO controller.
    OpenGpio,
    /// Register the virtual input device with all eight button capabilities.
    CreateDevice,
    /// Claim pin `pin` as an input with pull-up bias, for button `index`.
    ClaimPin { index: usize, pin: u8 },
    /// Attach the both-edges interrupt callback of button `index` to its pin.
    AttachInterrupt { index: usize },
    /// Detach the interrupt callback of button `index`; failures are ignored.
    DetachInterrupt { index: usize },
    /// Drop every claimed pin handle.
    ReleasePins,
    /// Release the GPIO controller.
    ReleaseGpio,
    /// Remove the virtual input device.
    ReleaseDevice,
}

/// The step at position `k` of the startup sequence for the given pin list:
/// open the controller, create the device, then for each button in
/// configuration order claim its pin and attach its callback.
pub open spec fn spec_startup_step_at(buttons: Seq<u8>, k: int) -> Step {
    if k == 0 {
        Step::OpenGpio
    } else if k == 1 {
        Step::CreateDevice
    } else if k % 2 == 0 {
        Step::ClaimPin { index: ((k - 2) / 2) as usize, pin: buttons[(k - 2) / 2] }
    } else {
        Step::AttachInterrupt { index: ((k - 2) / 2) as usize }
    }
}

/// The step at position `k` of the shutdown sequence when the callbacks of
/// the buttons in `callbacks` are attached: detach each callback, then drop
/// the pins, release the controller, and remove the device.
pub open spec fn spec_shutdown_step_at(callbacks: Seq<usize>, k: int) -> Step {
    if 0 <= k < callbacks.len() {
        Step::DetachInterrupt { index: callbacks[k] }
    } else if k == callbacks.len() {
        Step::ReleasePins
    } else if k == callbacks.len() + 1 {
        Step::ReleaseGpio
    } else {
        Step::ReleaseDevice
    }
}

/// The joystick bridge. `buttons` is the configuration: one GPIO pin number
/// per logical button, in the fixed button order. The remaining fields model
/// the hardware resources the bridge holds at runtime — the controller lock,
/// the virtual device, the claimed pins, the attached callbacks — and the
/// sequence of key events emitted to the operating system's input stack.
#[derive(Clone, Debug, PartialEq)]
pub struct Joystick {
    /// GPIO pin number for each button, in the fixed button order.
    pub buttons: [u8; 8],
    /// Model of the GPIO controller lock.
    pub gpio: bool,
    /// Model of the registered virtual device.
    pub vdevice: bool,
    /// Model of the claimed pin handles, in claim order.
    pub pins: Vec<u8>,
    /// Model of the attached callbacks: the button index of each, in attach
    /// order.
    pub callbacks: Vec<usize>,
    /// Model of the key events the callbacks have emitted, in order.
    pub emitted: Vec<KeyEvent>,
}

/// Snapshot of the logical pressed state of the eight buttons, in the fixed
/// button order. A convenience type only: the authoritative state lives in
/// the operating system's input device once events are emitted, and the
/// interrupt path does not maintain this snapshot.
#[derive(Clone, Copy, Debug)]
pub struct JoystickState {
    pub buttons: [bool; 8],
}

impl Default for JoystickState {
    /// All buttons released.
    fn default() -> (s: JoystickState)
        ensures
            forall|i: int| 0 <= i < 8 ==> !s.buttons@[i],
    {
        JoystickState { buttons: [false, false, false, false, false, false, false, false] }
    }
}

impl Joystick {
    /// The pins claimed so far, in claim order.
    pub open spec fn pins_seq(self) -> Seq<u8> {
        self.pins@
    }

    /// The button indices whose interrupt callback is attached, in attach
    /// order.
    pub open spec fn callbacks_seq(self) -> Seq<usize> {
        self.callbacks@
    }

    /// The key events emitted to the operating system so far, in order.
    pub open spec fn events_seq(self) -> Seq<KeyEvent> {
        self.emitted@
    }

    /// The GPIO controller is locked.
    pub open spec fn gpio_open(self) -> bool {
        self.gpio
    }

    /// The virtual input device is registered.
    pub open spec fn device_open(self) -> bool {
        self.vdevice
    }

    /// No hardware resource is held: nothing claimed, nothing attached, no
    /// controller lock, no device.
    pub open spec fn is_fresh(self) -> bool {
        &&& !self.gpio_open()
        &&& !self.device_open()
        &&& self.pins_seq() == Seq::<u8>::empty()
        &&& self.callbacks_seq() == Seq::<usize>::empty()
    }

    /// Startup has completed: the controller is locked, the device is up,
    /// every configured pin is claimed in configuration order, and each of
    /// the eight buttons has its own callback attached, in that same order.
    pub open spec fn is_initialized(self) -> bool {
        &&& self.gpio_open()
        &&& self.device_open()
        &&& self.pins_seq() == self.buttons@
        &&& self.callbacks_seq() == Seq::new(8, |i: int| i as usize)
    }

    /// A joystick for the given configuration, holding no hardware yet.
    pub fn new(buttons: [u8; 8]) -> (j: Joystick)
        ensures
            j.buttons == buttons,
            j.is_fresh(),
            j.events_seq() == Seq::<KeyEvent>::empty(),
    {
        Joystick {
            buttons,
            gpio: false,
            vdevice: false,
            pins: Vec::new(),
            callbacks: Vec::new(),
            emitted: Vec::new(),
        }
    }

    /// Startup, in the strict order of the lifecycle controller: lock the
    /// GPIO controller, register the virtual device, then for each button in
    /// configuration order claim its pin and attach its interrupt callback.
    /// Claiming fails (`PinClaimError`) exactly when the configuration names
    /// the same pin twice, since a pin may be claimed only once; nothing is
    /// held in that case. On success exactly the eight configured pins are
    /// claimed, in configuration order, with one callback each.
    pub fn init(&mut self) -> (r: Result<(), JoyError>)
        requires
            old(self).is_fresh(),
        ensures
            final(self).buttons == old(self).buttons,
            final(self).events_seq() == old(self).events_seq(),
            r is Ok <==> spec_distinct(old(self).buttons@),
            r is Ok ==> final(self).is_initialized(),
            r is Err ==> r == Result::<(), JoyError>::Err(JoyError::PinClaimError)
                && *final(self) == *old(self),
    {
        let mut i: usize = 0;
        while i < BUTTON_COUNT
            invariant
                i <= 8,
                forall|p: int, q: int| 0 <= p < q < i ==> self.buttons@[p] != self.buttons@[q],
                *self == *old(self),
            decreases 8 - i,
        {
            let mut j: usize = 0;
            while j < i
                invariant
                    j <= i < 8,
                    forall|q: int| 0 <= q < j ==> self.buttons@[q] != self.buttons@[i as int],
                    *self == *old(self),
                decreases i - j,
            {
                if self.buttons[j] == self.buttons[i] {
                    return Err(JoyError::PinClaimError);
                }
                j = j + 1;
            }
            i = i + 1;
        }
        self.gpio = true;
        self.vdevice = true;
        let mut n: usize = 0;
        while n < BUTTON_COUNT
            invariant
                n <= 8,
                self.buttons == old(self).buttons,
                self.emitted == old(self).emitted,
                self.gpio,
                self.vdevice,
                self.pins@ =~= self.buttons@.subrange(0, n as int),
                self.callbacks@ =~= Seq::new(n as nat, |i: int| i as usize),
            decreases 8 - n,
        {
            let pin = self.buttons[n];
            self.pins.push(pin);
            self.callbacks.push(n);
            n = n + 1;
        }
        proof {
            assert(self.pins@ =~= self.buttons@);
            assert(self.callbacks@ =~= Seq::new(8, |i: int| i as usize));
        }
        Ok(())
    }

    /// Shutdown: detach every attached callback (best effort — a no-op when
    /// none was ever attached), drop the claimed pins, release the GPIO
    /// controller, and remove the virtual device. Never fails, from any
    /// state.
    pub fn deinit(&mut self)
        ensures
            final(self).buttons == old(self).buttons,
            final(self).events_seq() == old(self).events_seq(),
            final(self).is_fresh(),
    {
        self.pins = Vec::new();
        self.callbacks = Vec::new();
        self.gpio = false;
        self.vdevice = false;
    }

    /// The interrupt callback of button `index`, run on an edge of its pin:
    /// translate the new electrical level (active-low) and emit exactly one
    /// key event, carrying that button's code, to the virtual device. The
    /// device lock serializes concurrent callbacks, so each call appends one
    /// whole event. Emission cannot fail while the device is up, which
    /// initialization guarantees.
    pub fn handle_edge(&mut self, index: usize, level: Level)
        requires
            old(self).is_initialized(),
            index < BUTTON_COUNT,
        ensures
            final(self).is_initialized(),
            final(self).buttons == old(self).buttons,
            final(self).events_seq() == old(self).events_seq().push(
                spec_translate(index as int, level),
            ),
    {
        let ev = translate(index, level);
        self.emitted.push(ev);
    }

    /// Deliver a batch of edge notifications, one callback at a time. The
    /// mutual-exclusion lock around the device means that however hardware
    /// edges race, the device observes some such serialization: the emitted
    /// stream extends by exactly one whole event per edge, in delivery order,
    /// with no interleaving inside an event.
    pub fn handle_edges(&mut self, edges: &Vec<(usize, Level)>)
        requires
            old(self).is_initialized(),
            forall|k: int| 0 <= k < edges@.len() ==> (#[trigger] edges@[k]).0 < BUTTON_COUNT,
        ensures
            final(self).is_initialized(),
            final(self).buttons == old(self).buttons,
            final(self).events_seq() == old(self).events_seq() + edges@.map_values(
                |e: (usize, Level)| spec_translate(e.0 as int, e.1),
            ),
    {
        let mut k: usize = 0;
        while k < edges.len()
            invariant
                k <= edges@.len(),
                self.is_initialized(),
                self.buttons == old(self).buttons,
                forall|m: int| 0 <= m < edges@.len() ==> (#[trigger] edges@[m]).0 < BUTTON_COUNT,
                self.events_seq() =~= old(self).events_seq() + edges@.subrange(0, k as int)
                    .map_values(|e: (usize, Level)| spec_translate(e.0 as int, e.1)),
            decreases edges@.len() - k,
        {
            let (index, level) = edges[k];
            self.handle_edge(index, level);
            proof {
                assert(edges@.subrange(0, k + 1).map_values(
                    |e: (usize, Level)| spec_translate(e.0 as int, e.1),
                ) =~= edges@.subrange(0, k as int).map_values(
                    |e: (usize, Level)| spec_translate(e.0 as int, e.1),
                ).push(spec_translate(edges@[k as int].0 as int, edges@[k as int].1)));
            }
            k = k + 1;
        }
        proof {
            assert(edges@.subrange(0, edges@.len() as int) =~= edges@);
        }
    }

    /// The startup sequence for this configuration, for the driver to
    /// perform: open the controller, create the device, then claim and
    /// attach per button in configuration order — eighteen steps in all.
    pub fn startup_steps(&self) -> (r: Vec<Step>)
        ensures
            r@.len() == 18,
            forall|k: int| 0 <= k < 18 ==> r@[k] == spec_startup_step_at(self.buttons@, k),
    {
        let mut r: Vec<Step> = Vec::new();
        r.push(Step::OpenGpio);
        r.push(Step::CreateDevice);
        let mut i: usize = 0;
        while i < BUTTON_COUNT
            invariant
                i <= 8,
                r@.len() == 2 + 2 * i,
                forall|k: int| 0 <= k < r@.len() ==> r@[k] == spec_startup_step_at(
                    self.buttons@,
                    k,
                ),
            decreases 8 - i,
        {
            r.push(Step::ClaimPin { index: i, pin: self.buttons[i] });
            r.push(Step::AttachInterrupt { index: i });
            i = i + 1;
        }
        r
    }

    /// The shutdown sequence from the current state: detach each attached
    /// callback in attach order (failures there are ignored by the driver),
    /// then drop the pins, release the controller, and remove the device.
    /// Defined in every state; when nothing was ever attached it holds no
    /// detach step at all.
    pub fn shutdown_steps(&self) -> (r: Vec<Step>)
        ensures
            r@.len() == self.callbacks_seq().len() + 3,
            forall|k: int| 0 <= k < r@.len() ==> r@[k] == spec_shutdown_step_at(
                self.callbacks_seq(),
                k,
            ),
    {
        let mut r: Vec<Step> = Vec::new();
        let mut i: usize = 0;
        while i < self.callbacks.len()
            invariant
                i <= self.callbacks@.len(),
                r@.len() == i,
                forall|k: int| 0 <= k < r@.len() ==> r@[k] == spec_shutdown_step_at(
                    self.callbacks@,
                    k,
                ),
            decreases self.callbacks@.len() - i,
        {
            r.push(Step::DetachInterrupt { index: self.callbacks[i] });
            i = i + 1;
        }
        r.push(Step::ReleasePins);
        r.push(Step::ReleaseGpio);
        r.push(Step::ReleaseDevice);
        r
    }
}

/// After a successful startup the claims are exactly the eight configured
/// pins, pairwise distinct, one callback per button in configuration order.
pub proof fn lemma_startup_claims(j: Joystick)
    requires
        j.is_initialized(),
        spec_distinct(j.buttons@),
    ensures
        j.pins_seq().len() == 8,
        spec_distinct(j.pins_seq()),
        j.pins_seq() == j.buttons@,
        j.callbacks_seq().len() == 8,
        forall|i: int| 0 <= i < 8 ==> j.callbacks_seq()[i] == i,
{
}

} // verus!
