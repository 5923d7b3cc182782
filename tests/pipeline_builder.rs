use std::sync::atomic::{AtomicUsize, Ordering};
use std::sync::Arc;
use std::time::Duration;
use tower::{Service, ServiceExt};
use workpipe::builder::WorkPipeBuilder;

type BoxError = Box<dyn std::error::Error + Send + Sync>;

#[test]
fn new_builder_is_not_concurrent() {
    assert!(!WorkPipeBuilder::new().is_concurrent());
    assert!(!WorkPipeBuilder::default().is_concurrent());
}

#[test]
fn plain_layers_keep_the_builder_sequential() {
    let b = WorkPipeBuilder::new().layer(tower::layer::util::Identity::new());
    assert!(!b.is_concurrent());
}

#[test]
fn buffer_makes_the_builder_concurrent() {
    let b = WorkPipeBuilder::new().with_buffer::<u32>(8);
    assert!(b.is_concurrent());
    let b = b.layer(tower::layer::util::Identity::new());
    assert!(b.is_concurrent());
    let b = b.with_concurrency_limit(2);
    assert!(b.is_concurrent());
    let b = b.with_buffer::<u32>(4);
    assert!(b.is_concurrent());
}

#[test]
fn bounded_concurrency_peak_stays_within_limit() {
    let rt = tokio::runtime::Builder::new_multi_thread().enable_all().build().unwrap();
    let current = Arc::new(AtomicUsize::new(0));
    let peak = Arc::new(AtomicUsize::new(0));
    let (c, p) = (current.clone(), peak.clone());
    let handled = rt.block_on(async move {
        let handler = tower::service_fn(move |x: u32| {
            let (c, p) = (c.clone(), p.clone());
            async move {
                let now = c.fetch_add(1, Ordering::SeqCst) + 1;
                p.fetch_max(now, Ordering::SeqCst);
                tokio::time::sleep(Duration::from_millis(100)).await;
                c.fetch_sub(1, Ordering::SeqCst);
                Ok::<u32, BoxError>(x)
            }
        });
        let svc = WorkPipeBuilder::new()
            .with_buffer::<u32>(16)
            .with_concurrency_limit(2)
            .into_service_builder()
            .service(handler);
        let mut tasks = tokio::task::JoinSet::new();
        for i in 0..10u32 {
            let mut s = svc.clone();
            tasks.spawn(async move {
                let s = s.ready().await.unwrap();
                s.call(i).await.unwrap()
            });
        }
        let mut n = 0;
        while let Some(r) = tasks.join_next().await {
            r.unwrap();
            n += 1;
        }
        n
    });
    assert_eq!(handled, 10);
    let observed = peak.load(Ordering::SeqCst);
    assert!(observed >= 1 && observed <= 2);
}
