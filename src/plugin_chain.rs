use vstd::prelude::*;

verus! {

/// Which way a request passes a plugin.
#[derive(Debug, Clone, Copy, PartialEq, Eq, Structural)]
pub enum Direction {
    /// The outer request on its way to execution.
    Inbound,
    /// The outer response on its way back to the caller.
    Outbound,
}

/// One hook invocation: the plugin at position `plugin` of the chain, in
/// direction `direction`.
#[derive(Debug, Clone, Copy, PartialEq, Eq, Structural)]
pub struct Stage {
    pub plugin: usize,
    pub direction: Direction,
}

/// The hook invocations of a chain of `n` plugins, in the order they run:
/// every plugin inbound in declaration order, then every plugin outbound in
/// reverse order.
pub open spec fn stage_order(n: nat) -> Seq<Stage> {
    Seq::new(
        2 * n,
        |k: int|
            if k < n {
                Stage { plugin: k as usize, direction: Direction::Inbound }
            } else {
                Stage { plugin: (2 * n - 1 - k) as usize, direction: Direction::Outbound }
            },
    )
}

/// Plugins in the order the configuration declares them.
pub struct PluginChain<P> {
    plugins: Vec<P>,
}

impl<P> PluginChain<P> {
    /// The plugins, in declaration order.
    pub closed spec fn view(&self) -> Seq<P> {
        self.plugins@
    }

    /// A chain of `plugins`, first declared first.
    pub fn new(plugins: Vec<P>) -> (r: Self)
        ensures
            r@ == plugins@,
    {
        PluginChain { plugins }
    }

    /// The number of plugins.
    pub fn len(&self) -> (r: usize)
        ensures
            r == self@.len(),
    {
        self.plugins.len()
    }

    /// The plugin at position `i`.
    pub fn get(&self, i: usize) -> (r: &P)
        requires
            i < self@.len(),
        ensures
            *r == self@[i as int],
    {
        &self.plugins[i]
    }

    /// The hook invocations for one request, in the order they run.
    pub fn stages(&self) -> (r: Vec<Stage>)
        requires
            2 * self@.len() <= usize::MAX,
        ensures
            r@ == stage_order(self@.len()),
    {
        let n = self.plugins.len();
        let mut r: Vec<Stage> = Vec::new();
        let mut i: usize = 0;
        while i < n
            invariant
                n == self@.len(),
                2 * n <= usize::MAX,
                i <= n,
                r@ =~= stage_order(n as nat).take(i as int),
            decreases n - i,
        {
            r.push(Stage { plugin: i, direction: Direction::Inbound });
            i = i + 1;
        }
        let mut j: usize = n;
        while j > 0
            invariant
                n == self@.len(),
                2 * n <= usize::MAX,
                j <= n,
                r@ =~= stage_order(n as nat).take(2 * n - j),
            decreases j,
        {
            j = j - 1;
            r.push(Stage { plugin: j, direction: Direction::Outbound });
        }
        r
    }
}

/// Nesting order of a chain: a plugin declared before another sees the
/// outer request before it and the outer response after it, and every
/// plugin sees the request before any plugin sees the response.
pub proof fn lemma_nesting_order(n: nat, a: nat, b: nat)
    requires
        a < b < n,
        2 * n <= usize::MAX,
    ensures
        stage_order(n).len() == 2 * n,
        stage_order(n)[a as int] == (Stage { plugin: a as usize, direction: Direction::Inbound }),
        stage_order(n)[b as int] == (Stage { plugin: b as usize, direction: Direction::Inbound }),
        stage_order(n)[2 * n - 1 - b] == (Stage {
            plugin: b as usize,
            direction: Direction::Outbound,
        }),
        stage_order(n)[2 * n - 1 - a] == (Stage {
            plugin: a as usize,
            direction: Direction::Outbound,
        }),
        a < b < 2 * n - 1 - b < 2 * n - 1 - a,
        forall|k: int| 0 <= k < n ==> (#[trigger] stage_order(n)[k]).direction == Direction::Inbound,
        forall|k: int|
            n <= k < 2 * n ==> (#[trigger] stage_order(n)[k]).direction == Direction::Outbound,
{
}

} // verus!
