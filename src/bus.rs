//! The register bus that the sensors are reached through, and a handle that
//! keeps, as ghost state, every register operation that has completed on it.

use crate::bytes::{le_i16, read_i16_le};
use vstd::prelude::*;

verus! {

/// A device on a two-wire bus with 8-bit registers, at a fixed address.
///
/// Implemented by the application for its platform's bus (a Linux I2C device
/// file, or a simulated register file in tests). Nothing is promised of the
/// bytes a read returns.
pub trait I2cBus {
    type Error;

    /// Reads one byte from `register`.
    fn smbus_read_byte_data(&mut self, register: u8) -> Result<u8, Self::Error>;

    /// Writes `value` to `register`.
    fn smbus_write_byte_data(&mut self, register: u8, value: u8) -> Result<(), Self::Error>;
}

/// A register operation, as it ended: a completed read or write, or one
/// that failed with the bus error `error`.
pub enum BusOp<E> {
    Read { register: u8, value: u8 },
    Write { register: u8, value: u8 },
    ReadFailed { register: u8, error: E },
    WriteFailed { register: u8, value: u8, error: E },
}

impl<E> BusOp<E> {
    /// The byte that was read or written; zero for a failed read.
    pub open spec fn value(&self) -> u8 {
        match *self {
            BusOp::Read { value, .. } => value,
            BusOp::Write { value, .. } => value,
            BusOp::ReadFailed { .. } => 0,
            BusOp::WriteFailed { value, .. } => value,
        }
    }
}

/// The bytes carried by each operation of `ops`, in order.
pub open spec fn values_of<E>(ops: Seq<BusOp<E>>) -> Seq<u8> {
    ops.map_values(|op: BusOp<E>| op.value())
}

/// One read of each register of `registers`, in order, that returned `values`.
pub open spec fn reads<E>(registers: Seq<u8>, values: Seq<u8>) -> Seq<BusOp<E>> {
    Seq::new(registers.len(), |i: int| BusOp::Read { register: registers[i], value: values[i] })
}

/// The operations of `later` that came after those of `earlier`.
pub open spec fn since<E>(earlier: Seq<BusOp<E>>, later: Seq<BusOp<E>>) -> Seq<BusOp<E>> {
    later.skip(earlier.len() as int)
}

/// The bytes returned by the reads that came after `earlier`.
pub open spec fn fresh<E>(earlier: Seq<BusOp<E>>, later: Seq<BusOp<E>>) -> Seq<u8> {
    values_of(since(earlier, later))
}

/// `later` is `earlier` followed by one completed read of each of
/// `registers`, in order, and nothing else.
pub open spec fn followed_by_reads<E>(
    earlier: Seq<BusOp<E>>,
    later: Seq<BusOp<E>>,
    registers: Seq<u8>,
) -> bool {
    later == earlier + reads(registers, fresh(earlier, later))
}

/// `later` is `earlier` followed by completed reads of the first registers
/// of `registers`, in order, then a read of the next one that failed with
/// `error`, and nothing else: a run of reads that the first failure ended.
pub open spec fn failed_reads<E>(
    earlier: Seq<BusOp<E>>,
    later: Seq<BusOp<E>>,
    registers: Seq<u8>,
    error: E,
) -> bool {
    let n = later.len() - earlier.len() - 1;
    &&& earlier.len() < later.len() <= earlier.len() + registers.len()
    &&& followed_by_reads(earlier, later.drop_last(), registers.take(n))
    &&& later.last() == BusOp::ReadFailed { register: registers[n], error }
}

/// The failed form of the write `op`.
pub open spec fn failed_write<E>(op: BusOp<E>, error: E) -> BusOp<E> {
    match op {
        BusOp::Write { register, value } => BusOp::WriteFailed { register, value, error },
        _ => op,
    }
}

/// `ops` is the first writes of `writes`, completed, then the next one, which
/// failed with `error`, and nothing else.
pub open spec fn failed_writes<E>(ops: Seq<BusOp<E>>, writes: Seq<BusOp<E>>, error: E) -> bool {
    &&& 0 < ops.len() <= writes.len()
    &&& ops.drop_last() == writes.take(ops.len() - 1)
    &&& ops.last() == failed_write(writes[ops.len() - 1], error)
}

/// The values carried by reads that returned `values` are `values`.
pub proof fn lemma_values_of_reads<E>(registers: Seq<u8>, values: Seq<u8>)
    requires
        registers.len() == values.len(),
    ensures
        values_of(reads::<E>(registers, values)) == values,
{
    assert(values_of(reads::<E>(registers, values)) =~= values);
}

/// No operation at all is a run of no reads.
pub proof fn lemma_no_reads<E>(ops: Seq<BusOp<E>>)
    ensures
        followed_by_reads(ops, ops, Seq::empty()),
        fresh(ops, ops) == Seq::<u8>::empty(),
{
    assert(since(ops, ops) =~= Seq::<BusOp<E>>::empty());
    assert(fresh(ops, ops) =~= Seq::<u8>::empty());
    assert(ops + reads(Seq::empty(), Seq::empty()) =~= ops);
}

/// A run of reads followed by a run of reads is one run of reads, whose
/// values are those of the first run, then those of the second.
pub proof fn lemma_reads_compose<E>(
    earlier: Seq<BusOp<E>>,
    mid: Seq<BusOp<E>>,
    later: Seq<BusOp<E>>,
    first: Seq<u8>,
    second: Seq<u8>,
)
    requires
        followed_by_reads(earlier, mid, first),
        followed_by_reads(mid, later, second),
    ensures
        followed_by_reads(earlier, later, first + second),
        fresh(earlier, later) == fresh(earlier, mid) + fresh(mid, later),
{
    let f1 = fresh(earlier, mid);
    let f2 = fresh(mid, later);
    assert(mid.len() == earlier.len() + first.len());
    assert(later.len() == mid.len() + second.len());
    assert(since(earlier, later) =~= reads::<E>(first, f1) + reads::<E>(second, f2));
    lemma_values_of_reads::<E>(first, f1);
    lemma_values_of_reads::<E>(second, f2);
    assert(values_of(reads::<E>(first, f1) + reads::<E>(second, f2)) =~= f1 + f2);
    assert(fresh(earlier, later) == f1 + f2);
    assert(reads::<E>(first, f1) + reads::<E>(second, f2) =~= reads::<E>(first + second, f1 + f2));
    assert(later =~= earlier + reads::<E>(first + second, f1 + f2));
}

/// A completed run of reads followed by a run that a failure ended is one
/// run that the failure ended.
pub proof fn lemma_reads_then_failure<E>(
    earlier: Seq<BusOp<E>>,
    mid: Seq<BusOp<E>>,
    later: Seq<BusOp<E>>,
    first: Seq<u8>,
    second: Seq<u8>,
    error: E,
)
    requires
        followed_by_reads(earlier, mid, first),
        failed_reads(mid, later, second, error),
    ensures
        failed_reads(earlier, later, first + second, error),
{
    let n = later.len() - mid.len() - 1;
    lemma_reads_compose(earlier, mid, later.drop_last(), first, second.take(n));
    assert(first + second.take(n) =~= (first + second).take(first.len() + n));
    assert((first + second)[first.len() + n] == second[n]);
}

/// A run of reads that a failure ended is also one against any longer list
/// of registers that begins with its own.
pub proof fn lemma_failure_within<E>(
    earlier: Seq<BusOp<E>>,
    later: Seq<BusOp<E>>,
    registers: Seq<u8>,
    more: Seq<u8>,
    error: E,
)
    requires
        failed_reads(earlier, later, registers, error),
    ensures
        failed_reads(earlier, later, registers + more, error),
{
    let n = later.len() - earlier.len() - 1;
    assert(registers.take(n) =~= (registers + more).take(n));
}

/// One more read extends a run of reads by its register and its value.
pub proof fn lemma_one_more_read<E>(
    earlier: Seq<BusOp<E>>,
    mid: Seq<BusOp<E>>,
    registers: Seq<u8>,
    register: u8,
    value: u8,
)
    requires
        followed_by_reads(earlier, mid, registers),
    ensures
        followed_by_reads(earlier, mid.push(BusOp::Read { register, value }), registers.push(register)),
        fresh(earlier, mid.push(BusOp::Read { register, value })) == fresh(earlier, mid).push(value),
{
    let later = mid.push(BusOp::Read { register, value });
    assert(since(mid, later) =~= seq![BusOp::Read { register, value }]);
    assert(fresh(mid, later) =~= seq![value]);
    assert(later =~= mid + reads::<E>(seq![register], seq![value]));
    lemma_reads_compose(earlier, mid, later, registers, seq![register]);
    assert(registers + seq![register] =~= registers.push(register));
    assert(fresh(earlier, mid) + seq![value] =~= fresh(earlier, mid).push(value));
}

/// One failed read ends a run of reads.
pub proof fn lemma_one_failed_read<E>(
    earlier: Seq<BusOp<E>>,
    mid: Seq<BusOp<E>>,
    registers: Seq<u8>,
    register: u8,
    error: E,
)
    requires
        followed_by_reads(earlier, mid, registers),
    ensures
        failed_reads(
            earlier,
            mid.push(BusOp::ReadFailed { register, error }),
            registers.push(register),
            error,
        ),
{
    let later = mid.push(BusOp::ReadFailed { register, error });
    assert(later.drop_last() =~= mid);
    assert(registers.push(register).take(registers.len() as int) =~= registers);
}

/// One device on the bus, owned exclusively, with the record of every
/// register operation made on it through this handle.
pub struct SensorHandle<B: I2cBus> {
    dev: B,
    ops: Ghost<Seq<BusOp<B::Error>>>,
}

impl<B: I2cBus> SensorHandle<B> {
    /// The register operations made on the device through this handle,
    /// oldest first, each as it ended.
    pub closed spec fn ops(&self) -> Seq<BusOp<B::Error>> {
        self.ops@
    }

    pub fn new(dev: B) -> (r: SensorHandle<B>)
        ensures
            r.ops() == Seq::<BusOp<B::Error>>::empty(),
    {
        SensorHandle { dev, ops: Ghost(Seq::empty()) }
    }

    /// Reads one register.
    pub fn read_register(&mut self, register: u8) -> (r: Result<u8, B::Error>)
        ensures
            match r {
                Ok(value) => {
                    &&& final(self).ops() == old(self).ops().push(BusOp::Read { register, value })
                    &&& followed_by_reads(old(self).ops(), final(self).ops(), seq![register])
                    &&& fresh(old(self).ops(), final(self).ops()) == seq![value]
                },
                Err(error) => {
                    &&& final(self).ops() == old(self).ops().push(
                        BusOp::ReadFailed { register, error },
                    )
                    &&& failed_reads(old(self).ops(), final(self).ops(), seq![register], error)
                },
            },
    {
        let ghost before = self.ops@;
        proof {
            lemma_no_reads(before);
        }
        let r = self.dev.smbus_read_byte_data(register);
        match r {
            Ok(value) => {
                self.ops = Ghost(self.ops@.push(BusOp::Read { register, value }));
                proof {
                    lemma_one_more_read(before, before, Seq::<u8>::empty(), register, value);
                    assert(Seq::<u8>::empty().push(register) =~= seq![register]);
                    assert(fresh(before, before).push(value) =~= seq![value]);
                }
                Ok(value)
            },
            Err(error) => {
                self.ops = Ghost(self.ops@.push(BusOp::ReadFailed { register, error }));
                proof {
                    lemma_one_failed_read(before, before, Seq::<u8>::empty(), register, error);
                    assert(Seq::<u8>::empty().push(register) =~= seq![register]);
                }
                Err(error)
            },
        }
    }

    /// Reads one register as the next of a run of reads that began after
    /// `earlier`.
    pub(crate) fn read_next(
        &mut self,
        register: u8,
        Ghost(earlier): Ghost<Seq<BusOp<B::Error>>>,
        Ghost(registers): Ghost<Seq<u8>>,
    ) -> (r: Result<u8, B::Error>)
        requires
            followed_by_reads(earlier, old(self).ops(), registers),
        ensures
            match r {
                Ok(value) => {
                    &&& followed_by_reads(earlier, final(self).ops(), registers.push(register))
                    &&& fresh(earlier, final(self).ops()) == fresh(earlier, old(self).ops()).push(
                        value,
                    )
                },
                Err(error) => failed_reads(
                    earlier,
                    final(self).ops(),
                    registers.push(register),
                    error,
                ),
            },
    {
        let r = self.read_register(register);
        proof {
            if r is Ok {
                lemma_one_more_read(earlier, old(self).ops(), registers, register, r->Ok_0);
            } else {
                lemma_one_failed_read(earlier, old(self).ops(), registers, register, r->Err_0);
            }
        }
        r
    }

    /// Reads a two-byte sample, low byte first, as a signed 16-bit value.
    /// The first failed read ends the sample.
    pub fn read_le_i16(&mut self, low: u8, high: u8) -> (r: Result<i16, B::Error>)
        ensures
            match r {
                Ok(v) => {
                    let bytes = fresh(old(self).ops(), final(self).ops());
                    &&& followed_by_reads(old(self).ops(), final(self).ops(), seq![low, high])
                    &&& v as int == le_i16(bytes[0], bytes[1])
                },
                Err(error) => failed_reads(
                    old(self).ops(),
                    final(self).ops(),
                    seq![low, high],
                    error,
                ),
            },
    {
        let ghost start = self.ops();
        let ghost both = seq![low, high];
        let ghost first = seq![low];
        proof {
            lemma_no_reads(start);
            assert(Seq::<u8>::empty().push(low) =~= first);
            assert(first.push(high) =~= both);
            assert(first + seq![high] =~= both);
        }
        let lo = match self.read_next(low, Ghost(start), Ghost(Seq::empty())) {
            Ok(lo) => lo,
            Err(e) => {
                proof {
                    lemma_failure_within(start, self.ops(), first, seq![high], e);
                }
                return Err(e);
            },
        };
        let hi = self.read_next(high, Ghost(start), Ghost(first))?;
        proof {
            assert(fresh(start, self.ops()) =~= seq![lo, hi]);
        }
        Ok(read_i16_le(lo, hi))
    }

    /// Writes one register.
    pub fn write_register(&mut self, register: u8, value: u8) -> (r: Result<(), B::Error>)
        ensures
            match r {
                Ok(_) => final(self).ops() == old(self).ops().push(BusOp::Write { register, value }),
                Err(error) => final(self).ops() == old(self).ops().push(
                    BusOp::WriteFailed { register, value, error },
                ),
            },
    {
        let r = self.dev.smbus_write_byte_data(register, value);
        match r {
            Ok(()) => {
                self.ops = Ghost(self.ops@.push(BusOp::Write { register, value }));
                Ok(())
            },
            Err(error) => {
                self.ops = Ghost(self.ops@.push(BusOp::WriteFailed { register, value, error }));
                Err(error)
            },
        }
    }
}

} // verus!
