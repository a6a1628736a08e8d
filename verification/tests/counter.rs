use std::sync::atomic::{AtomicBool, AtomicU64};

use caligula::util::io_graph::counter::Counter;

#[derive(Debug, Default, Clone, PartialEq, Eq)]
pub struct TestCounters<N> {
    pub foo: N,
    pub bar: Option<TestCountersChildren<N>>,
    pub spam: Vec<TestCountersChildren<N>>,
}

impl<C: Counter> Counter for TestCounters<C> {
    type Snapshot = TestCounters<C::Snapshot>;

    fn snapshot_into(&self, dst: &mut Self::Snapshot) {
        self.foo.snapshot_into(&mut dst.foo);
        self.bar.snapshot_into(&mut dst.bar);
        self.spam.snapshot_into(&mut dst.spam);
    }
}

#[derive(Debug, Default, Clone, PartialEq, Eq)]
pub struct TestCountersChildren<N> {
    pub field: N,
}

impl<C: Counter> Counter for TestCountersChildren<C> {
    type Snapshot = TestCountersChildren<C::Snapshot>;

    fn snapshot_into(&self, dst: &mut Self::Snapshot) {
        self.field.snapshot_into(&mut dst.field);
    }
}

#[test]
fn define_u64_counters_works() {
    let counter = TestCounters::<AtomicU64> {
        foo: 10.into(),
        bar: None,
        spam: vec![TestCountersChildren { field: 20.into() }],
    };

    let mut actual = TestCounters::<u64>::default();
    counter.snapshot_into(&mut actual);

    assert_eq!(
        actual,
        TestCounters::<u64> {
            foo: 10,
            bar: None,
            spam: vec![TestCountersChildren { field: 20 }]
        }
    )
}

#[test]
fn snapshot_reshapes_destination() {
    let counter: Vec<Option<AtomicBool>> = vec![Some(true.into()), None, Some(false.into())];
    let mut snapshot: Vec<Option<bool>> = vec![None; 7];
    counter.snapshot_into(&mut snapshot);
    assert_eq!(snapshot, vec![Some(true), None, Some(false)]);

    let counter: Option<AtomicU64> = None;
    let mut snapshot = Some(3u64);
    counter.snapshot_into(&mut snapshot);
    assert_eq!(snapshot, None);
}

#[test]
fn shared_counters_snapshot_what_they_point_to() {
    let boxed: Box<AtomicU64> = Box::new(5.into());
    let mut s = 0u64;
    boxed.snapshot_into(&mut s);
    assert_eq!(s, 5);

    let shared: std::sync::Arc<Vec<AtomicU64>> = std::sync::Arc::new(vec![1.into(), 2.into()]);
    let mut v: Vec<u64> = vec![];
    shared.snapshot_into(&mut v);
    assert_eq!(v, vec![1, 2]);

    let counted: std::rc::Rc<Option<AtomicBool>> = std::rc::Rc::new(None);
    let mut o = Some(true);
    counted.snapshot_into(&mut o);
    assert_eq!(o, None);
}
