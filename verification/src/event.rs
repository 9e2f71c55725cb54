use vstd::prelude::*;

verus! {

/// The value of a structured field captured at spawn time. String data is
/// interned by the instrumentation boundary; fields carry indices into its
/// string table.
#[derive(Clone, Copy, PartialEq, Eq, Structural, Debug)]
pub enum FieldValue {
    DebugStr(u64),
    LitStr(u64),
    U64(u64),
    I64(i64),
    Bool(bool),
}

/// One structured field of a spawned task: an interned name and a value.
#[derive(Clone, Copy, PartialEq, Eq, Structural, Debug)]
pub struct Field {
    pub name: u64,
    pub value: FieldValue,
}

/// A waker operation observed for a task.
#[derive(Clone, Copy, PartialEq, Eq, Structural, Debug)]
pub enum WakeOp {
    Wake,
    WakeByRef,
    CloneWaker,
    DropWaker,
}

/// One lifecycle event from the instrumentation layer. Span identifiers are
/// the runtime's opaque handles; timestamps are wall-clock nanoseconds.
pub enum Event {
    Metadata { meta: u64 },
    Spawn { span: u64, meta: u64, at: u64, fields: Vec<Field> },
    Enter { span: u64, at: u64 },
    Exit { span: u64, at: u64 },
    Close { span: u64, at: u64 },
    Waker { span: u64, op: WakeOp, at: u64 },
}

/// Copy a field list element by element.
pub fn copy_fields(fields: &Vec<Field>) -> (r: Vec<Field>)
    ensures
        r@ == fields@,
{
    let mut r: Vec<Field> = Vec::new();
    let n: usize = fields.len();
    let mut i: usize = 0;
    while i < n
        invariant
            n == fields@.len(),
            0 <= i <= n,
            r@ == fields@.take(i as int),
        decreases n - i,
    {
        r.push(fields[i]);
        proof {
            assert(r@ =~= fields@.take(i + 1));
        }
        i += 1;
    }
    proof {
        assert(fields@.take(n as int) =~= fields@);
    }
    r
}

} // verus!
