use tunelock::command::SourceHandle;
use tunelock::registry::{RegistryError, SourceRegistry};

#[test]
fn registered_sources_launch_with_their_buffer() {
    let mut r: SourceRegistry<Vec<f32>> = SourceRegistry::new();
    let a = r.register(vec![0.1, 0.2]);
    let b = r.register(vec![0.3]);
    assert_eq!(a, SourceHandle(1));
    assert_eq!(b, SourceHandle(2));
    assert_eq!(r.source_for_launch(a), Ok(&vec![0.1, 0.2]));
    assert_eq!(r.source_for_launch(b), Ok(&vec![0.3]));
}

#[test]
fn unregistered_sources_are_not_found() {
    let mut r: SourceRegistry<u8> = SourceRegistry::new();
    let a = r.register(7);
    r.unregister(a);
    assert_eq!(r.source_for_launch(a), Err(RegistryError::SourceNotFound));
    assert_eq!(r.source_for_launch(SourceHandle(99)), Err(RegistryError::SourceNotFound));
    // Handles are not reused after an unregister.
    let b = r.register(8);
    assert_eq!(b, SourceHandle(2));
    assert_eq!(r.source_for_launch(b), Ok(&8));
}
