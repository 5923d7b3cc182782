use tower::buffer::BufferLayer;
use tower::layer::util::{Identity, Stack};
use tower::limit::ConcurrencyLimitLayer;
use tower::ServiceBuilder;
use vstd::prelude::*;

verus! {

#[verifier::external_type_specification]
#[verifier::external_body]
#[verifier::reject_recursive_types(L)]
pub struct ExServiceBuilder<L>(ServiceBuilder<L>);

#[verifier::external_type_specification]
#[verifier::external_body]
pub struct ExIdentity(Identity);

#[verifier::external_type_specification]
#[verifier::external_body]
#[verifier::reject_recursive_types(Inner)]
#[verifier::reject_recursive_types(Outer)]
pub struct ExStack<Inner, Outer>(Stack<Inner, Outer>);

#[verifier::external_type_specification]
#[verifier::external_body]
#[verifier::reject_recursive_types(Request)]
pub struct ExBufferLayer<Request>(BufferLayer<Request>);

#[verifier::external_type_specification]
#[verifier::external_body]
pub struct ExConcurrencyLimitLayer(ConcurrencyLimitLayer);

/// Relies on tower's ServiceBuilder::new: a builder with no layer yet.
pub assume_specification[ ServiceBuilder::<Identity>::new ]() -> ServiceBuilder<Identity>;

/// Relies on tower's ServiceBuilder::layer: `layer` goes inside every layer
/// added before it.
pub assume_specification<L, T>[ ServiceBuilder::<L>::layer::<T> ](
    b: ServiceBuilder<L>,
    layer: T,
) -> ServiceBuilder<Stack<T, L>>;

/// Relies on tower's BufferLayer::new: stores the bound, never panics.
pub assume_specification<Request>[ BufferLayer::<Request>::new ](bound: usize) -> BufferLayer<Request>;

/// Relies on tower's ConcurrencyLimitLayer::new: stores the limit, never panics.
pub assume_specification[ ConcurrencyLimitLayer::new ](max: usize) -> ConcurrencyLimitLayer;

/// One step of building a pipeline, in the order the steps were taken.
pub enum BuildStep {
    /// A layer given by the caller.
    Layer,
    /// A buffer with room for this many pending calls.
    Buffer(usize),
    /// A limit of this many calls in flight.
    ConcurrencyLimit(usize),
}

/// Whether some step of `steps` added a buffer.
pub open spec fn concurrent_after(steps: Seq<BuildStep>) -> bool
    decreases steps.len(),
{
    if steps.len() == 0 {
        false
    } else {
        concurrent_after(steps.drop_last()) || steps.last() is Buffer
    }
}

/// Whether the builder takes `steps` in this order: a concurrency limit only
/// once the pipeline is concurrent.
pub open spec fn legal(steps: Seq<BuildStep>) -> bool
    decreases steps.len(),
{
    if steps.len() == 0 {
        true
    } else {
        legal(steps.drop_last()) && (steps.last() is ConcurrencyLimit ==> concurrent_after(
            steps.drop_last(),
        ))
    }
}

/// Builds a pipeline from the outside in: the first layer added is the first
/// to see a request and the last to see its response.
#[verifier::reject_recursive_types(L)]
pub struct WorkPipeBuilder<L> {
    builder: ServiceBuilder<L>,
    is_concurrent: bool,
    steps: Ghost<Seq<BuildStep>>,
}

impl<L> WorkPipeBuilder<L> {
    /// The steps taken so far; the first is the outermost layer.
    pub closed spec fn steps(&self) -> Seq<BuildStep> {
        self.steps@
    }

    #[verifier::type_invariant]
    closed spec fn wf(&self) -> bool {
        &&& legal(self.steps@)
        &&& self.is_concurrent == concurrent_after(self.steps@)
    }

    /// Whether a buffer has been added, so that a concurrency limit may follow.
    pub fn is_concurrent(&self) -> (r: bool)
        ensures
            r == concurrent_after(self.steps()),
            legal(self.steps()),
    {
        proof {
            use_type_invariant(self);
        }
        self.is_concurrent
    }

    /// Adds `layer` inside every layer added so far.
    pub fn layer<NewLayer>(self, layer: NewLayer) -> (r: WorkPipeBuilder<Stack<NewLayer, L>>)
        ensures
            r.steps() == self.steps().push(BuildStep::Layer),
            legal(r.steps()),
    {
        self.push_layer(layer, BuildStep::Layer)
    }

    fn push_layer<NewLayer>(self, layer: NewLayer, step: BuildStep) -> (r: WorkPipeBuilder<
        Stack<NewLayer, L>,
    >)
        requires
            step is ConcurrencyLimit ==> concurrent_after(self.steps()),
        ensures
            r.steps() == self.steps().push(step),
            legal(r.steps()),
    {
        proof {
            use_type_invariant(&self);
        }
        let ghost steps = self.steps@.push(step);
        assert(steps.drop_last() =~= self.steps@);
        let is_concurrent = self.is_concurrent || matches!(step, BuildStep::Buffer(_));
        WorkPipeBuilder {
            builder: self.builder.layer(layer),
            is_concurrent,
            steps: Ghost(steps),
        }
    }

    /// Adds a buffer of `buffer_size` pending calls, which makes the
    /// pipeline concurrent.
    pub fn with_buffer<T>(self, buffer_size: usize) -> (r: WorkPipeBuilder<
        Stack<BufferLayer<T>, L>,
    >)
        ensures
            r.steps() == self.steps().push(BuildStep::Buffer(buffer_size)),
            legal(r.steps()),
    {
        self.push_layer(BufferLayer::new(buffer_size), BuildStep::Buffer(buffer_size))
    }

    /// Adds a limit of `concurrency_limit` calls in flight. Only a concurrent
    /// pipeline takes one: without a buffer there is one call in flight at most.
    pub fn with_concurrency_limit(self, concurrency_limit: usize) -> (r: WorkPipeBuilder<
        Stack<ConcurrencyLimitLayer, L>,
    >)
        requires
            concurrent_after(self.steps()),
        ensures
            r.steps() == self.steps().push(BuildStep::ConcurrencyLimit(concurrency_limit)),
            legal(r.steps()),
    {
        self.push_layer(
            ConcurrencyLimitLayer::new(concurrency_limit),
            BuildStep::ConcurrencyLimit(concurrency_limit),
        )
    }

    /// The tower builder that holds the layers, to apply them to a service.
    pub fn into_service_builder(self) -> ServiceBuilder<L> {
        self.builder
    }
}

impl WorkPipeBuilder<Identity> {
    pub fn new() -> (r: Self)
        ensures
            r.steps() == Seq::<BuildStep>::empty(),
            legal(r.steps()),
    {
        WorkPipeBuilder {
            builder: ServiceBuilder::new(),
            is_concurrent: false,
            steps: Ghost(Seq::empty()),
        }
    }
}

impl Default for WorkPipeBuilder<Identity> {
    fn default() -> (r: Self)
        ensures
            r.steps() == Seq::<BuildStep>::empty(),
            legal(r.steps()),
    {
        Self::new()
    }
}

/// The builder takes an order of steps exactly when every concurrency limit
/// comes after some buffer.
pub proof fn lemma_builder_guard(steps: Seq<BuildStep>)
    ensures
        legal(steps) <==> forall|i: int|
            0 <= i < steps.len() && #[trigger] steps[i] is ConcurrencyLimit ==> exists|j: int|
                0 <= j < i && #[trigger] steps[j] is Buffer,
    decreases steps.len(),
{
    if steps.len() > 0 {
        let init = steps.drop_last();
        lemma_builder_guard(init);
        lemma_concurrent_after(init);
        let n = steps.len() - 1;
        if legal(steps) {
            assert forall|i: int|
                0 <= i < steps.len() && #[trigger] steps[i] is ConcurrencyLimit implies exists|j: int|
                    0 <= j < i && #[trigger] steps[j] is Buffer by {
                if i < n {
                    assert(init[i] == steps[i]);
                    let j = choose|j: int| 0 <= j < i && #[trigger] init[j] is Buffer;
                    assert(steps[j] == init[j]);
                } else {
                    let j = choose|j: int| 0 <= j < init.len() && #[trigger] init[j] is Buffer;
                    assert(steps[j] == init[j]);
                }
            }
        }
        if forall|i: int|
            0 <= i < steps.len() && #[trigger] steps[i] is ConcurrencyLimit ==> exists|j: int|
                0 <= j < i && #[trigger] steps[j] is Buffer {
            assert forall|i: int|
                0 <= i < init.len() && #[trigger] init[i] is ConcurrencyLimit implies exists|j: int|
                    0 <= j < i && #[trigger] init[j] is Buffer by {
                assert(steps[i] == init[i]);
                let j = choose|j: int| 0 <= j < i && #[trigger] steps[j] is Buffer;
                assert(init[j] == steps[j]);
            }
            if steps.last() is ConcurrencyLimit {
                assert(steps[n] is ConcurrencyLimit);
                let j = choose|j: int| 0 <= j < n && #[trigger] steps[j] is Buffer;
                assert(init[j] == steps[j]);
            }
        }
    }
}

/// A pipeline is concurrent exactly when some step added a buffer.
pub proof fn lemma_concurrent_after(steps: Seq<BuildStep>)
    ensures
        concurrent_after(steps) <==> exists|j: int| 0 <= j < steps.len() && #[trigger] steps[j] is Buffer,
    decreases steps.len(),
{
    if steps.len() > 0 {
        let init = steps.drop_last();
        lemma_concurrent_after(init);
        if concurrent_after(init) {
            let j = choose|j: int| 0 <= j < init.len() && #[trigger] init[j] is Buffer;
            assert(steps[j] == init[j]);
        }
        if exists|j: int| 0 <= j < steps.len() && #[trigger] steps[j] is Buffer {
            let j = choose|j: int| 0 <= j < steps.len() && #[trigger] steps[j] is Buffer;
            if j < steps.len() - 1 {
                assert(init[j] == steps[j]);
            }
        }
    }
}

/// The builder records its steps in the order taken: three steps from a new
/// builder leave exactly those three on record, the first at the front, which
/// is the end that tower's `ServiceBuilder::layer` keeps outermost.
pub proof fn lemma_layer_order<L1, L2, L3, L4>(
    b0: WorkPipeBuilder<L1>,
    b1: WorkPipeBuilder<L2>,
    b2: WorkPipeBuilder<L3>,
    b3: WorkPipeBuilder<L4>,
    s1: BuildStep,
    s2: BuildStep,
    s3: BuildStep,
)
    requires
        b0.steps().len() == 0,
        b1.steps() == b0.steps().push(s1),
        b2.steps() == b1.steps().push(s2),
        b3.steps() == b2.steps().push(s3),
    ensures
        b3.steps() == seq![s1, s2, s3],
        b3.steps().first() == s1,
{
    assert(b3.steps() =~= seq![s1, s2, s3]);
}

/// Of a builder `b` built by any legal chain of steps (every builder is): a
/// concurrency limit may follow exactly when some earlier step added a
/// buffer; otherwise the chain with the limit is one the builder refuses.
pub proof fn lemma_limit_guard<L>(b: WorkPipeBuilder<L>, k: usize)
    requires
        legal(b.steps()),
    ensures
        concurrent_after(b.steps()) <==> exists|j: int|
            0 <= j < b.steps().len() && #[trigger] b.steps()[j] is Buffer,
        legal(b.steps().push(BuildStep::ConcurrencyLimit(k))) <==> exists|j: int|
            0 <= j < b.steps().len() && #[trigger] b.steps()[j] is Buffer,
{
    lemma_concurrent_after(b.steps());
    let next = b.steps().push(BuildStep::ConcurrencyLimit(k));
    assert(next.drop_last() =~= b.steps());
}

} // verus!
