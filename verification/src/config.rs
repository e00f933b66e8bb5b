use vstd::prelude::*;

verus! {

/// How an executor is set up. `E` makes what is attached to each task that is spawned.
#[derive(Debug, Clone, Copy)]
pub struct ExecutorConfig<E> {
    /// How many wake-ups of other threads may wait.
    pub sync_queue_size: usize,
    /// How many tasks there is room for from the start.
    pub local_queue_size: usize,
    /// How many tasks are polled in one tick at most.
    pub max_interval: u32,
    /// Makes what is attached to each task, if anything.
    pub extra: Option<E>,
}

impl<E> Default for ExecutorConfig<E> {
    fn default() -> (config: Self)
        ensures
            config == (ExecutorConfig {
                sync_queue_size: 64,
                local_queue_size: 63,
                max_interval: 32,
                extra: None::<E>,
            }),
    {
        ExecutorConfig {
            sync_queue_size: 64,
            local_queue_size: 63,
            max_interval: 32,
            extra: None,
        }
    }
}

impl<E> ExecutorConfig<E> {
    /// Whether queues of these sizes can be made.
    pub open spec fn valid(self) -> bool {
        &&& self.sync_queue_size < 0x8000_0000
        &&& self.local_queue_size * 64 + 64 <= isize::MAX
    }

    /// Whether queues of these sizes can be made.
    pub fn is_valid(&self) -> (valid: bool)
        ensures
            valid == self.valid(),
            valid == (self.sync_queue_size < 0x8000_0000 && self.local_queue_size * 64 + 64
                <= isize::MAX),
    {
        let most: usize = isize::MAX as usize;
        self.sync_queue_size < 0x8000_0000 && self.local_queue_size <= (most - 64) / 64
    }
}

/// Only the two sizes matter for whether the queues can be made, and all that an allocation and the
/// channel have room for can be.
pub proof fn law_sizes_are_valid<E>(config: ExecutorConfig<E>)
    ensures
        config.valid() <==> config.sync_queue_size < 0x8000_0000 && config.local_queue_size * 64
            + 64 <= isize::MAX,
{
}

} // verus!
