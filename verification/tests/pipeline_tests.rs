use azero_relayer::errors::AzeroListenerError;
use azero_relayer::listener::{
    ensure_block_capacity, eth_tx_finality_decision, next_finalized_block_decision,
    AlephZeroListener, EthFinalityDecision, EthTxLookup, ALEPH_MAX_REQUESTS_PER_BLOCK,
};
use azero_relayer::store::read_first_unprocessed_block_number;

#[test]
fn start_block_is_default_on_empty_store() {
    assert_eq!(read_first_unprocessed_block_number(None, 100), 100);
}

#[test]
fn start_block_is_one_past_the_stored_checkpoint() {
    // Restart after a run that checkpointed block 100: no replay of 100.
    assert_eq!(read_first_unprocessed_block_number(Some(100), 100), 101);
    assert_eq!(read_first_unprocessed_block_number(Some(7), 100), 8);
}

#[test]
fn one_block_one_event_checkpoints_the_block() {
    let start = read_first_unprocessed_block_number(None, 100);
    let mut listener = AlephZeroListener::new(start, 16);
    let block = listener.begin_block();
    assert_eq!(block, 100);
    assert!(listener.try_spawn_handler(block));
    assert_eq!(listener.in_flight, 1);
    listener.handler_done(block);
    let checkpoint = listener.complete_block(block);
    assert_eq!(checkpoint, 100);
    assert_eq!(listener.checkpoint, Some(100));
}

#[test]
fn out_of_order_completion_checkpoints_in_order() {
    // Blocks 100 and 101 hold one event each; the handler of 101
    // finishes first.  The waiters still produce 100, then 101.
    let mut listener = AlephZeroListener::new(100, 16);
    let b100 = listener.begin_block();
    assert!(listener.try_spawn_handler(b100));
    let b101 = listener.begin_block();
    assert!(listener.try_spawn_handler(b101));

    listener.handler_done(b101);
    listener.handler_done(b100);
    let first_write = listener.complete_block(b100);
    let second_write = listener.complete_block(b101);
    assert_eq!((first_write, second_write), (100, 101));
}

#[test]
fn checkpoint_never_advances_past_an_unfinished_block() {
    // The handler of 101 finishes while 100 is still open: the waiter of
    // 101 may only checkpoint 99, and 101 is reached once 100 is done.
    let mut listener = AlephZeroListener::new(100, 16);
    let b100 = listener.begin_block();
    assert!(listener.try_spawn_handler(b100));
    let b101 = listener.begin_block();
    assert!(listener.try_spawn_handler(b101));

    listener.handler_done(b101);
    let early_write = listener.complete_block(b101);
    assert_eq!(early_write, 99);

    listener.handler_done(b100);
    let late_write = listener.complete_block(b100);
    assert_eq!(late_write, 101);
    assert!(early_write <= late_write);
}

#[test]
fn concurrency_stays_under_the_configured_bound() {
    // Five events in block 100 under a bound of two: at most two
    // handlers ever run at once, all five finish, the block checkpoints.
    let mut listener = AlephZeroListener::new(100, 2);
    let block = listener.begin_block();

    let mut started: usize = 0;
    let mut finished: usize = 0;
    while finished < 5 {
        while started < 5 && listener.try_spawn_handler(block) {
            started += 1;
            assert!(listener.in_flight <= 2);
        }
        if started < 5 {
            // The third spawn is refused at the bound: backpressure.
            assert_eq!(listener.in_flight, 2);
        }
        listener.handler_done(block);
        finished += 1;
    }
    assert_eq!(started, 5);
    assert_eq!(listener.in_flight, 0);
    let checkpoint = listener.complete_block(block);
    assert_eq!(checkpoint, 100);
}

#[test]
fn failed_block_holds_the_checkpoint_back() {
    // A decode failure keeps block 100 open: nothing past 99 is written.
    let mut listener = AlephZeroListener::new(100, 16);
    let block = listener.begin_block();
    assert!(listener.try_spawn_handler(block));
    // The handler failed; the block is never completed.
    assert_eq!(listener.checkpoint, None);
    assert!(listener.contains_pending(block));
    assert_eq!(listener.open_handlers_of(block), 1);
}

#[test]
fn block_without_requests_checkpoints_immediately() {
    // An ignored event kind spawns no destination call; the waiter still
    // completes the block.
    let mut listener = AlephZeroListener::new(100, 16);
    let block = listener.begin_block();
    let checkpoint = listener.complete_block(block);
    assert_eq!(checkpoint, 100);
}

#[test]
fn pending_set_always_keeps_the_next_block() {
    let mut listener = AlephZeroListener::new(5, 4);
    for expected in 5u32..12 {
        let block = listener.begin_block();
        assert_eq!(block, expected);
        let _ = listener.complete_block(block);
        assert_eq!(listener.pending.len(), 1);
        assert_eq!(listener.checkpoint, Some(block));
    }
}

#[test]
fn block_capacity_guard_trips_at_the_bound() {
    assert!(ensure_block_capacity(0).is_ok());
    assert!(ensure_block_capacity(ALEPH_MAX_REQUESTS_PER_BLOCK - 1).is_ok());
    assert_eq!(
        ensure_block_capacity(ALEPH_MAX_REQUESTS_PER_BLOCK),
        Err(AzeroListenerError::TooManyEventsInBlock)
    );
    assert_eq!(
        ensure_block_capacity(ALEPH_MAX_REQUESTS_PER_BLOCK + 7),
        Err(AzeroListenerError::TooManyEventsInBlock)
    );
}

#[test]
fn finalized_head_poll_waits_for_a_recent_block() {
    assert_eq!(next_finalized_block_decision(Some(120), 100), Some(120));
    assert_eq!(next_finalized_block_decision(Some(100), 100), Some(100));
    assert_eq!(next_finalized_block_decision(Some(99), 100), None);
    assert_eq!(next_finalized_block_decision(None, 100), None);
}

#[test]
fn destination_finality_poll_decides_each_outcome() {
    assert_eq!(
        eth_tx_finality_decision(EthTxLookup::Found(Some(50)), 60),
        EthFinalityDecision::Finalized
    );
    assert_eq!(
        eth_tx_finality_decision(EthTxLookup::Found(Some(61)), 60),
        EthFinalityDecision::Retry
    );
    assert_eq!(
        eth_tx_finality_decision(EthTxLookup::Found(None), 60),
        EthFinalityDecision::Retry
    );
    assert_eq!(
        eth_tx_finality_decision(EthTxLookup::LookupFailed, 60),
        EthFinalityDecision::Retry
    );
    assert_eq!(
        eth_tx_finality_decision(EthTxLookup::NotFound, 60),
        EthFinalityDecision::Fatal
    );
}
