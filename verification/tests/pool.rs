use resolver_pool::{Address, Error, ErrorKind, Resolver, ResolverPool};

struct DummyResolver(i8);

impl DummyResolver {
    fn new(n: i8) -> Self {
        DummyResolver(n)
    }
}

impl Resolver for DummyResolver {
    fn resolve(&self) -> Result<Vec<Address>, Error> {
        let mut addrs = vec![];
        for n in 0..self.0 {
            let addr = Address::from_octets(127, 0, 0, 1, 8080 + n as u16);
            addrs.push(addr);
        }
        Ok(addrs)
    }
}

struct FixedResolver(Vec<Address>);

impl Resolver for FixedResolver {
    fn resolve(&self) -> Result<Vec<Address>, Error> {
        Ok(self.0.clone())
    }
}

struct FailingResolver;

impl Resolver for FailingResolver {
    fn resolve(&self) -> Result<Vec<Address>, Error> {
        Err(Error(ErrorKind::QueryFailed))
    }
}

fn addr(d: u8, port: u16) -> Address {
    Address::from_octets(10, 0, 0, d, port)
}

#[test]
fn it_works() {
    let n = 5;
    let resolver = DummyResolver::new(n);
    let duration = 5000; // 5 seconds, in milliseconds
    let mut resolver_pool = ResolverPool::new(resolver, duration);
    assert_eq!(resolver_pool.run().is_ok(), true);
    let addr = resolver_pool.get().unwrap();
    assert_eq!(addr, Address::from_octets(127, 0, 0, 1, 8080));
}

#[test]
fn get_serves_only_resolved_values() {
    let list = vec![addr(1, 1000), addr(2, 2000), addr(3, 3000)];
    let mut pool = ResolverPool::new(FixedResolver(list.clone()), 100);
    assert!(pool.run().is_ok());
    for _ in 0..20 {
        let a = pool.get().unwrap();
        assert!(list.contains(&a));
    }
}

#[test]
fn second_run_fails_without_mutation() {
    let list = vec![addr(1, 1000), addr(2, 2000)];
    let mut pool = ResolverPool::new(FixedResolver(list.clone()), 100);
    assert!(pool.run().is_ok());
    let first = pool.get().unwrap();
    assert_eq!(first, list[0]);
    assert_eq!(pool.run(), Err(Error(ErrorKind::AlreadyRunning)));
    // The cache and the rotation are unaffected by the rejected call.
    assert_eq!(pool.get().unwrap(), list[1]);
    assert_eq!(pool.get().unwrap(), list[0]);
}

#[test]
fn rotation_visits_each_address_once_then_repeats() {
    let list = vec![addr(1, 1), addr(2, 2), addr(3, 3), addr(4, 4), addr(5, 5)];
    let mut pool = ResolverPool::new(FixedResolver(list.clone()), 100);
    assert!(pool.run().is_ok());
    let mut seen = vec![];
    for _ in 0..list.len() {
        seen.push(pool.get().unwrap());
    }
    // One full round visits each address exactly once, in rotation order.
    assert_eq!(seen, list);
    // Then the rotation repeats cyclically.
    assert_eq!(pool.get().unwrap(), list[0]);
}

#[test]
fn get_before_run_returns_none() {
    let mut pool = ResolverPool::new(DummyResolver::new(3), 100);
    assert_eq!(pool.get(), None);
}

#[test]
fn empty_refresh_retains_previous_cache() {
    let a1 = addr(1, 1111);
    let mut pool = ResolverPool::new(FixedResolver(vec![a1]), 100);
    assert!(pool.run().is_ok());
    pool.apply_refresh(Ok(vec![]));
    assert_eq!(pool.get(), Some(a1));
}

#[test]
fn failed_refresh_retains_previous_cache() {
    let a1 = addr(1, 1111);
    let mut pool = ResolverPool::new(FixedResolver(vec![a1]), 100);
    assert!(pool.run().is_ok());
    pool.apply_refresh(Err(Error(ErrorKind::QueryFailed)));
    assert_eq!(pool.get(), Some(a1));
}

#[test]
fn nonempty_refresh_replaces_cache_wholesale() {
    let a1 = addr(1, 1111);
    let a2 = addr(2, 2222);
    let a3 = addr(3, 3333);
    let mut pool = ResolverPool::new(FixedResolver(vec![a1]), 100);
    assert!(pool.run().is_ok());
    assert_eq!(pool.get(), Some(a1));
    pool.apply_refresh(Ok(vec![a2, a3]));
    let mut saw_a2 = false;
    let mut saw_a3 = false;
    for _ in 0..10 {
        let a = pool.get().unwrap();
        assert_ne!(a, a1);
        assert!(a == a2 || a == a3);
        if a == a2 {
            saw_a2 = true;
        }
        if a == a3 {
            saw_a3 = true;
        }
    }
    assert!(saw_a2 && saw_a3);
}

#[test]
fn failed_initial_population_is_propagated_and_pool_runs_empty() {
    let mut pool = ResolverPool::new(FailingResolver, 100);
    assert_eq!(pool.run(), Err(Error(ErrorKind::QueryFailed)));
    // The pool is marked running: a second run is rejected.
    assert_eq!(pool.run(), Err(Error(ErrorKind::AlreadyRunning)));
    // The cache stayed empty.
    assert_eq!(pool.get(), None);
}

#[test]
fn empty_initial_population_is_accepted() {
    let mut pool = ResolverPool::new(FixedResolver(vec![]), 100);
    assert!(pool.run().is_ok());
    assert_eq!(pool.get(), None);
}

#[test]
fn refresh_calls_the_resolver() {
    let a1 = addr(7, 7777);
    let mut pool = ResolverPool::new(FixedResolver(vec![a1]), 100);
    assert!(pool.run().is_ok());
    pool.refresh();
    assert_eq!(pool.get(), Some(a1));
}

#[test]
fn stop_consumes_the_pool() {
    let mut pool = ResolverPool::new(DummyResolver::new(2), 100);
    assert!(pool.run().is_ok());
    pool.stop();
}

#[test]
fn refresh_interval_is_kept() {
    let pool = ResolverPool::new(DummyResolver::new(1), 250);
    assert_eq!(pool.refresh_interval(), 250);
}

#[test]
fn from_octets_exact_value() {
    let a = Address::from_octets(127, 0, 0, 1, 8080);
    assert_eq!(a.ip, 0x7f00_0001);
    assert_eq!(a.port, 8080);
    let b = Address::from_octets(10, 1, 2, 3, 53);
    assert_eq!(b.ip, 10 * 0x100_0000 + 1 * 0x1_0000 + 2 * 0x100 + 3);
    assert_eq!(b.port, 53);
}
