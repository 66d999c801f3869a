//! Persistent reservations of one LUN, held by its one initiator.
use vstd::prelude::*;

use crate::bytes::{
    be32, be64, be_value, bytes_stand_for_their_number, push_be32, push_be64, push_zeros, zeros,
};
use crate::scsi::target::{
    ReservationView, ScsiPersistentReservation, ScsiPersistentReservationState,
};

verus! {

/// How a PERSISTENT RESERVE OUT command ends.
#[derive(Debug, Clone, Copy, PartialEq, Eq, Structural)]
pub enum ReservationOutcome {
    /// The command was carried out.
    Done,
    /// The key does not match, or another reservation is active.
    Conflict,
    /// The scope or the type is none that this unit supports.
    InvalidField,
}

/// Whether `t` is a reservation type: write exclusive (1), exclusive access
/// (3), and both for registrants only (5, 6) or for all registrants (7, 8).
pub open spec fn is_reservation_type(t: u8) -> bool {
    t == 1 || t == 3 || t == 5 || t == 6 || t == 7 || t == 8
}

impl ReservationView {
    /// At most one key is registered, and a reservation is held by it.
    pub open spec fn wf(self) -> bool {
        &&& self.registered_keys.len() <= 1
        &&& self.reservation matches Some(r) ==> self.registered_keys == seq![r.key]
            && is_reservation_type(r.reservation_type)
    }

    /// The registered key, zero where none is registered.
    pub open spec fn key(self) -> u64 {
        if self.registered_keys.len() == 0 {
            0
        } else {
            self.registered_keys[0]
        }
    }

    /// The state after a REGISTER with the matching key: the new key takes the
    /// place of the old one, and holds the reservation that the old one held.
    /// A new key of zero removes the registration and its reservation.
    pub open spec fn registered(self, new_key: u64) -> ReservationView {
        ReservationView {
            generation: if self.generation == u32::MAX {
                0
            } else {
                (self.generation + 1) as u32
            },
            registered_keys: if new_key == 0 {
                Seq::empty()
            } else {
                seq![new_key]
            },
            reservation: if new_key == 0 {
                None
            } else {
                match self.reservation {
                    Some(r) => Some(
                        ScsiPersistentReservation {
                            key: new_key,
                            reservation_type: r.reservation_type,
                        },
                    ),
                    None => None,
                }
            },
        }
    }

    /// How a REGISTER with reservation key `key` ends.
    pub open spec fn register_outcome(self, key: u64) -> ReservationOutcome {
        if key != self.key() {
            ReservationOutcome::Conflict
        } else {
            ReservationOutcome::Done
        }
    }

    /// How a RESERVE with reservation key `key` and the scope and type byte
    /// ends.
    pub open spec fn reserve_outcome(self, key: u64, scope_type: u8) -> ReservationOutcome {
        if scope_type >= 16 || !is_reservation_type(scope_type) {
            ReservationOutcome::InvalidField
        } else if self.registered_keys.len() == 0 || key != self.key() {
            ReservationOutcome::Conflict
        } else {
            match self.reservation {
                Some(r) => if r.reservation_type == scope_type {
                    ReservationOutcome::Done
                } else {
                    ReservationOutcome::Conflict
                },
                None => ReservationOutcome::Done,
            }
        }
    }

    /// The state after a RESERVE that was carried out.
    pub open spec fn reserved(self, key: u64, scope_type: u8) -> ReservationView {
        ReservationView {
            reservation: Some(ScsiPersistentReservation { key, reservation_type: scope_type }),
            ..self
        }
    }

    /// The parameter data of READ KEYS: the generation, the length of the key
    /// list and the keys.
    pub open spec fn key_list(self) -> Seq<u8> {
        if self.registered_keys.len() == 0 {
            be32(self.generation) + be32(0)
        } else {
            be32(self.generation) + be32(8) + be64(self.registered_keys[0])
        }
    }

    /// The parameter data of READ RESERVATION: the generation, the length of
    /// the rest, and where a reservation is active its key, and its scope and
    /// type in byte 21.
    pub open spec fn reservation_data(self) -> Seq<u8> {
        match self.reservation {
            Some(r) => be32(self.generation) + be32(16) + be64(r.key) + zeros(4) + seq![
                0u8,
                r.reservation_type,
            ] + zeros(2),
            None => be32(self.generation) + be32(0),
        }
    }
}

/// A fresh state is well formed, and every command keeps it so.
pub proof fn reservation_states_are_well_formed(s: ReservationView, key: u64, arg: u64, t: u8)
    requires
        s.wf(),
    ensures
        s.registered(arg).wf(),
        s.reserve_outcome(key, t) == ReservationOutcome::Done ==> s.reserved(key, t).wf(),
{
    assert(s.registered_keys.len() == 1 ==> s.registered_keys =~= seq![s.registered_keys[0]]);
}

/// What was registered is what READ KEYS lists, and what was reserved is what
/// READ RESERVATION reports.
pub proof fn reservations_read_back(s: ReservationView, new_key: u64, t: u8)
    requires
        s.wf(),
        new_key != 0,
    ensures
        ({
            let r = s.registered(new_key);
            let v = r.reserved(new_key, t);
            &&& r.key_list().len() == 16
            &&& crate::bytes::be32_at(r.key_list(), 4) == 8
            &&& crate::bytes::be64_at(r.key_list(), 8) == new_key
            &&& v.reservation_data().len() == 24
            &&& crate::bytes::be32_at(v.reservation_data(), 4) == 16
            &&& crate::bytes::be64_at(v.reservation_data(), 8) == new_key
            &&& v.reservation_data()[21] == t
            &&& s.reservation is None && is_reservation_type(t) ==> r.reserve_outcome(new_key, t)
                == ReservationOutcome::Done
        }),
{
    let r = s.registered(new_key);
    let v = r.reserved(new_key, t);
    crate::bytes::be_bytes_round_trip(0, 8, new_key);
    crate::bytes::be_bytes_round_trip(0, 16, new_key);
    let k = r.key_list();
    let d = v.reservation_data();
    let b = be64(new_key);
    assert(forall|i: int| 0 <= i < 8 ==> k[8 + i] == b[i]);
    assert(forall|i: int| 0 <= i < 8 ==> d[8 + i] == b[i]);
    assert(k[8] == b[0] && k[9] == b[1] && k[10] == b[2] && k[11] == b[3]);
    assert(k[12] == b[4] && k[13] == b[5] && k[14] == b[6] && k[15] == b[7]);
    assert(d[8] == b[0] && d[9] == b[1] && d[10] == b[2] && d[11] == b[3]);
    assert(d[12] == b[4] && d[13] == b[5] && d[14] == b[6] && d[15] == b[7]);
}

impl ScsiPersistentReservationState {
    /// The registered key, zero where none is registered.
    fn current_key(&self) -> (key: u64)
        ensures
            key == self@.key(),
    {
        if self.registered_keys.len() == 0 {
            0
        } else {
            self.registered_keys[0]
        }
    }

    /// REGISTER: with the matching reservation key (zero where none is
    /// registered), `new_key` becomes the registered key.
    pub fn register(&mut self, key: u64, new_key: u64) -> (outcome: ReservationOutcome)
        requires
            old(self)@.wf(),
        ensures
            outcome == old(self)@.register_outcome(key),
            final(self)@ == if outcome == ReservationOutcome::Done {
                old(self)@.registered(new_key)
            } else {
                old(self)@
            },
            final(self)@.wf(),
    {
        proof {
            reservation_states_are_well_formed(self@, key, new_key, 0);
        }
        if key != self.current_key() {
            return ReservationOutcome::Conflict;
        }
        self.generation = if self.generation == u32::MAX {
            0
        } else {
            self.generation + 1
        };
        let mut keys: Vec<u64> = Vec::new();
        if new_key == 0 {
            self.reservation = None;
        } else {
            keys.push(new_key);
            self.reservation = match self.reservation {
                Some(r) => Some(
                    ScsiPersistentReservation {
                        key: new_key,
                        reservation_type: r.reservation_type,
                    },
                ),
                None => None,
            };
        }
        self.registered_keys = keys;
        assert(self@ == old(self)@.registered(new_key)) by {
            assert(self@.registered_keys =~= old(self)@.registered(new_key).registered_keys);
        }
        ReservationOutcome::Done
    }

    /// RESERVE: the registered key takes the reservation of the given type.
    pub fn reserve(&mut self, key: u64, scope_type: u8) -> (outcome: ReservationOutcome)
        requires
            old(self)@.wf(),
        ensures
            outcome == old(self)@.reserve_outcome(key, scope_type),
            final(self)@ == if outcome == ReservationOutcome::Done {
                old(self)@.reserved(key, scope_type)
            } else {
                old(self)@
            },
            final(self)@.wf(),
    {
        proof {
            reservation_states_are_well_formed(self@, key, 0, scope_type);
        }
        if !(scope_type == 1 || scope_type == 3 || (5 <= scope_type && scope_type <= 8)) {
            return ReservationOutcome::InvalidField;
        }
        if self.registered_keys.len() == 0 || key != self.current_key() {
            return ReservationOutcome::Conflict;
        }
        if let Some(r) = self.reservation {
            if r.reservation_type != scope_type {
                return ReservationOutcome::Conflict;
            }
        }
        self.reservation = Some(ScsiPersistentReservation { key, reservation_type: scope_type });
        ReservationOutcome::Done
    }

    /// The parameter data of READ KEYS.
    pub fn read_keys(&self) -> (data: Vec<u8>)
        requires
            self@.wf(),
        ensures
            data@ == self@.key_list(),
    {
        let mut data: Vec<u8> = Vec::new();
        push_be32(&mut data, self.generation);
        if self.registered_keys.len() == 0 {
            push_be32(&mut data, 0);
        } else {
            push_be32(&mut data, 8);
            push_be64(&mut data, self.registered_keys[0]);
        }
        assert(data@ =~= self@.key_list());
        data
    }

    /// The parameter data of READ RESERVATION.
    pub fn read_reservation(&self) -> (data: Vec<u8>)
        ensures
            data@ == self@.reservation_data(),
    {
        let mut data: Vec<u8> = Vec::new();
        push_be32(&mut data, self.generation);
        match self.reservation {
            Some(r) => {
                push_be32(&mut data, 16);
                push_be64(&mut data, r.key);
                push_zeros(&mut data, 4);
                data.push(0);
                data.push(r.reservation_type);
                push_zeros(&mut data, 2);
            },
            None => {
                push_be32(&mut data, 0);
            },
        }
        assert(data@ =~= self@.reservation_data());
        data
    }
}

/// How a registration changes a reservation state: it needs the key that is
/// registered, zero where there is none, and then counts the generation up by
/// one, from the largest to zero. The new key takes the place of the old one and
/// its reservation, and a new key of zero removes both.
pub proof fn registrations_replace_the_key(s: ReservationView, key: u64, new_key: u64)
    requires
        s.wf(),
    ensures
        s.register_outcome(key) == ReservationOutcome::Done || s.register_outcome(key)
            == ReservationOutcome::Conflict,
        s.registered_keys.len() == 0 ==> (s.register_outcome(key) == ReservationOutcome::Done
            <==> key == 0),
        s.registered_keys.len() > 0 ==> (s.register_outcome(key) == ReservationOutcome::Done
            <==> key == s.registered_keys[0]),
        s.registered(new_key).generation == (s.generation + 1) % 0x1_0000_0000,
        new_key == 0 ==> s.registered(new_key).registered_keys.len() == 0 && s.registered(
            new_key,
        ).reservation is None,
        new_key != 0 ==> s.registered(new_key).registered_keys == seq![new_key],
        new_key != 0 ==> (s.registered(new_key).reservation is Some <==> s.reservation is Some),
        new_key != 0 && s.reservation is Some ==> {
            &&& s.registered(new_key).reservation->Some_0.key == new_key
            &&& s.registered(new_key).reservation->Some_0.reservation_type
                == s.reservation->Some_0.reservation_type
        },
{
}

/// When a reservation is granted: to the registered key alone, for one of the six
/// types, with scope zero, and only where none of another type is held. It then
/// is the one that is held, and the keys and the generation stay as they were. A
/// scope or a type that is none of these is an invalid field, whoever asks.
pub proof fn reservations_need_the_registered_key(s: ReservationView, key: u64, scope_type: u8)
    requires
        s.wf(),
    ensures
        ({
            let known = scope_type == 1 || scope_type == 3 || 5 <= scope_type <= 8;
            let registered = s.registered_keys.len() > 0 && s.registered_keys[0] == key;
            let free = match s.reservation {
                Some(r) => r.reservation_type == scope_type,
                None => true,
            };
            &&& s.reserve_outcome(key, scope_type) == ReservationOutcome::InvalidField <==> !known
            &&& s.reserve_outcome(key, scope_type) == ReservationOutcome::Done <==> known
                && registered && free
        }),
        s.reserved(key, scope_type).reservation is Some,
        s.reserved(key, scope_type).reservation->Some_0.key == key,
        s.reserved(key, scope_type).reservation->Some_0.reservation_type == scope_type,
        s.reserved(key, scope_type).registered_keys == s.registered_keys,
        s.reserved(key, scope_type).generation == s.generation,
{
}

/// What READ KEYS and READ RESERVATION return of a state, byte by byte in
/// big-endian order: the generation in the first four bytes and the length of the
/// rest in the next four; then the registered key, where there is one; and of a
/// reservation its key, and its type in byte 21.
pub proof fn reservation_states_are_reported(s: ReservationView)
    requires
        s.wf(),
    ensures
        ({
            let k = s.key_list();
            &&& be_value(k.subrange(0, 4)) == s.generation
            &&& be_value(k.subrange(4, 8)) == k.len() - 8
            &&& k.len() == 8 + 8 * s.registered_keys.len()
            &&& s.registered_keys.len() == 1 ==> be_value(k.subrange(8, 16))
                == s.registered_keys[0]
        }),
        ({
            let d = s.reservation_data();
            &&& be_value(d.subrange(0, 4)) == s.generation
            &&& be_value(d.subrange(4, 8)) == d.len() - 8
            &&& s.reservation is None ==> d.len() == 8
            &&& s.reservation matches Some(r) ==> {
                &&& d.len() == 24
                &&& be_value(d.subrange(8, 16)) == r.key
                &&& d[21] == r.reservation_type
                &&& forall|i: int| 16 <= i < 24 && i != 21 ==> #[trigger] d[i] == 0
            }
        }),
{
    let k = s.key_list();
    let d = s.reservation_data();
    bytes_stand_for_their_number(0, s.generation, s.key());
    bytes_stand_for_their_number(0, 0, 0);
    bytes_stand_for_their_number(0, 8, 0);
    bytes_stand_for_their_number(0, 16, 0);
    assert(k.subrange(0, 4) =~= be32(s.generation));
    assert(d.subrange(0, 4) =~= be32(s.generation));
    if s.registered_keys.len() == 0 {
        assert(k.subrange(4, 8) =~= be32(0));
    } else {
        assert(k.subrange(4, 8) =~= be32(8));
        assert(k.subrange(8, 16) =~= be64(s.key()));
    }
    match s.reservation {
        Some(r) => {
            bytes_stand_for_their_number(0, 0, r.key);
            assert(d.subrange(4, 8) =~= be32(16));
            assert(d.subrange(8, 16) =~= be64(r.key));
        },
        None => {
            assert(d.subrange(4, 8) =~= be32(0));
        },
    }
}

} // verus!
