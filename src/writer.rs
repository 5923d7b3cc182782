use vstd::prelude::*;

verus! {

/// Where the writer layer sends its records. `Multi` fans out to its
/// children in the order given.
#[derive(Debug)]
pub enum WriterSink {
    Stdout,
    Stderr,
    File(String),
    Multi(Vec<WriterSink>),
}

impl Clone for WriterSink {
    fn clone(&self) -> (r: Self)
        ensures
            r@ == self@,
            leaves(r) =~= leaves(*self),
    {
        self.duplicate()
    }
}

/// What a [`WriterSink`] denotes: the same tree, with children in order.
pub enum SinkView {
    Stdout,
    Stderr,
    File(Seq<char>),
    Multi(Seq<SinkView>),
}

impl View for WriterSink {
    type V = SinkView;

    open spec fn view(&self) -> SinkView {
        sink_view(*self)
    }
}

pub open spec fn sink_view(s: WriterSink) -> SinkView
    decreases s, 0nat,
{
    match s {
        WriterSink::Stdout => SinkView::Stdout,
        WriterSink::Stderr => SinkView::Stderr,
        WriterSink::File(p) => SinkView::File(p@),
        WriterSink::Multi(children) => SinkView::Multi(views_of(children, children@.len())),
    }
}

/// The views of the first `n` children, in order.
pub open spec fn views_of(children: Vec<WriterSink>, n: nat) -> Seq<SinkView>
    decreases children, n,
{
    if n == 0 || n > children@.len() {
        Seq::empty()
    } else {
        views_of(children, (n - 1) as nat).push(sink_view(children@[n - 1]))
    }
}

/// One concrete destination of a record: a sink tree without its `Multi` nodes.
#[derive(Debug, Clone)]
pub enum SinkTarget {
    Stdout,
    Stderr,
    File(String),
}

/// What a [`SinkTarget`] denotes.
pub enum TargetView {
    Stdout,
    Stderr,
    File(Seq<char>),
}

impl View for SinkTarget {
    type V = TargetView;

    open spec fn view(&self) -> TargetView {
        match self {
            SinkTarget::Stdout => TargetView::Stdout,
            SinkTarget::Stderr => TargetView::Stderr,
            SinkTarget::File(p) => TargetView::File(p@),
        }
    }
}

pub open spec fn target_views(ts: Seq<SinkTarget>) -> Seq<TargetView> {
    ts.map_values(|t: SinkTarget| t@)
}

/// The destinations of `s`, depth first, children in their declared order.
pub open spec fn leaves(s: WriterSink) -> Seq<TargetView>
    decreases s, 0nat,
{
    match s {
        WriterSink::Stdout => seq![TargetView::Stdout],
        WriterSink::Stderr => seq![TargetView::Stderr],
        WriterSink::File(p) => seq![TargetView::File(p@)],
        WriterSink::Multi(children) => leaves_of(children, children@.len()),
    }
}

/// The destinations of the first `n` children, in order.
pub open spec fn leaves_of(children: Vec<WriterSink>, n: nat) -> Seq<TargetView>
    decreases children, n,
{
    if n == 0 || n > children@.len() {
        Seq::empty()
    } else {
        leaves_of(children, (n - 1) as nat) + leaves(children@[n - 1])
    }
}

/// The first `n` children of two lists agree, so their views and
/// destinations do.
proof fn lemma_leaves_of_prefix(a: Vec<WriterSink>, b: Vec<WriterSink>, n: nat)
    requires
        n <= a@.len(),
        n <= b@.len(),
        forall|j: int| 0 <= j < n ==> a@[j] == b@[j],
    ensures
        leaves_of(a, n) == leaves_of(b, n),
        views_of(a, n) == views_of(b, n),
    decreases n,
{
    if n > 0 {
        lemma_leaves_of_prefix(a, b, (n - 1) as nat);
    }
}

impl WriterSink {
    /// A copy of the tree: the same nodes, children in the same order.
    pub fn duplicate(&self) -> (r: WriterSink)
        ensures
            r@ == self@,
            leaves(r) =~= leaves(*self),
        decreases self,
    {
        match self {
            WriterSink::Stdout => WriterSink::Stdout,
            WriterSink::Stderr => WriterSink::Stderr,
            WriterSink::File(p) => WriterSink::File(p.clone()),
            WriterSink::Multi(children) => {
                let mut out: Vec<WriterSink> = Vec::new();
                let mut i: usize = 0;
                while i < children.len()
                    invariant
                        *self == WriterSink::Multi(*children),
                        i <= children@.len(),
                        out@.len() == i,
                        leaves_of(out, i as nat) =~= leaves_of(*children, i as nat),
                        views_of(out, i as nat) =~= views_of(*children, i as nat),
                    decreases children@.len() - i,
                {
                    proof {
                        vstd::std_specs::vec::axiom_vec_index_decreases(*children, i as int);
                        assert(decreases_to!(*self => self->Multi_0));
                        assert(decreases_to!(*children => children[i as int]));
                    }
                    let c = children[i].duplicate();
                    let ghost before = out;
                    out.push(c);
                    proof {
                        lemma_leaves_of_prefix(before, out, i as nat);
                    }
                    i = i + 1;
                }
                WriterSink::Multi(out)
            }
        }
    }

    /// The destinations that one record is written to, in the order of writing.
    pub fn targets(&self) -> (r: Vec<SinkTarget>)
        ensures
            target_views(r@) =~= leaves(*self),
        decreases self,
    {
        match self {
            WriterSink::Stdout => vec![SinkTarget::Stdout],
            WriterSink::Stderr => vec![SinkTarget::Stderr],
            WriterSink::File(p) => vec![SinkTarget::File(p.clone())],
            WriterSink::Multi(children) => {
                let mut out: Vec<SinkTarget> = Vec::new();
                let mut i: usize = 0;
                while i < children.len()
                    invariant
                        *self == WriterSink::Multi(*children),
                        i <= children@.len(),
                        target_views(out@) =~= leaves_of(*children, i as nat),
                    decreases children@.len() - i,
                {
                    proof {
                        vstd::std_specs::vec::axiom_vec_index_decreases(*children, i as int);
                        assert(decreases_to!(*self => self->Multi_0));
                        assert(decreases_to!(*children => children[i as int]));
                    }
                    let mut sub = children[i].targets();
                    let ghost before = out@;
                    out.append(&mut sub);
                    proof {
                        assert(target_views(out@) =~= target_views(before) + leaves(children@[i as int]));
                    }
                    i = i + 1;
                }
                out
            }
        }
    }
}

/// A layer that writes the result of every call to a sink before handing
/// it back.
#[derive(Clone)]
pub struct WriterLayer {
    sink: WriterSink,
}

impl WriterLayer {
    pub closed spec fn sink(&self) -> WriterSink {
        self.sink
    }

    pub fn new(sink: WriterSink) -> (r: Self)
        ensures
            r.sink() == sink,
    {
        WriterLayer { sink }
    }

    /// Wraps `inner`; the new service writes to a copy of this layer's sink.
    pub fn layer<S>(&self, inner: S) -> (r: WriterService<S>)
        ensures
            r.inner() == inner,
            r.sink()@ == self.sink()@,
            leaves(r.sink()) == leaves(self.sink()),
    {
        WriterService { inner, sink: self.sink.duplicate() }
    }
}

/// The service built by [`WriterLayer`].
#[derive(Clone)]
pub struct WriterService<S> {
    inner: S,
    sink: WriterSink,
}

impl<S> WriterService<S> {
    pub closed spec fn inner(&self) -> S {
        self.inner
    }

    pub closed spec fn sink(&self) -> WriterSink {
        self.sink
    }

    /// The service whose results are written.
    pub fn inner_ref(&self) -> (r: &S)
        ensures
            *r == self.inner(),
    {
        &self.inner
    }

    /// The service whose results are written, for readiness and calls.
    pub fn inner_mut(&mut self) -> (r: &mut S)
        ensures
            *r == old(self).inner(),
            final(self).inner() == *final(r),
            final(self).sink() == old(self).sink(),
    {
        &mut self.inner
    }

    /// The destinations of one record, in the order of writing.
    pub fn targets(&self) -> (r: Vec<SinkTarget>)
        ensures
            target_views(r@) =~= leaves(self.sink()),
    {
        self.sink.targets()
    }
}

/// The record written for one result: its rendering and a line break.
pub fn record_line(rendered: &str) -> (r: String)
    ensures
        r@ == rendered@.push('\n'),
{
    let mut line = rendered.to_owned();
    line.append("\n");
    proof {
        reveal_strlit("\n");
        assert(line@ =~= rendered@.push('\n'));
    }
    line
}

/// The result handed back to the caller once the record has been written:
/// the inner service's result, whatever came of the write.
pub fn deliver<R, E>(result: R, written: Result<(), E>) -> (r: R)
    ensures
        r == result,
{
    result
}

/// The caller receives exactly what the writer observed, whether the sink
/// accepted the record or failed.
pub proof fn lemma_sink_transparency<R, E>(observed: R, ok: R, failed: R, err: E)
    requires
        deliver::<R, E>.ensures((observed, Ok::<(), E>(())), ok),
        deliver::<R, E>.ensures((observed, Err::<(), E>(err)), failed),
    ensures
        ok == observed,
        failed == observed,
{
}

} // verus!
