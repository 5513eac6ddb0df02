//! What the component reports of itself.
//!
//! A [`Metrics`] value is a batch: the decisions of this crate write into it, and whoever runs
//! them drains it into the recorder of the process.

use vstd::prelude::*;

use crate::flashblock::copy_all;

verus! {

/// A count of events.
#[derive(Debug)]
pub struct Counter {
    count: u64,
}

impl Counter {
    /// The number of events counted, modulo two to the 64th power.
    pub closed spec fn view(&self) -> u64 {
        self.count
    }

    /// A counter that has counted nothing.
    pub fn new() -> (r: Counter)
        ensures
            r@ == 0,
    {
        Counter { count: 0 }
    }

    /// Counts `n` more events. Like the counters of the recorder, it wraps around at two to the
    /// 64th power.
    pub fn increment(&mut self, n: u64)
        ensures
            final(self)@ == counted(old(self)@, n),
    {
        self.count = self.count.wrapping_add(n);
    }

    /// The number of events counted.
    pub fn count(&self) -> (r: u64)
        ensures
            r == self@,
    {
        self.count
    }
}

impl Clone for Counter {
    fn clone(&self) -> (r: Counter)
        ensures
            r@ == self@,
    {
        Counter { count: self.count }
    }
}

/// The latest value of a quantity.
#[derive(Debug)]
pub struct Gauge {
    value: Option<u64>,
}

impl Gauge {
    /// The value last set, if any was.
    pub closed spec fn view(&self) -> Option<u64> {
        self.value
    }

    /// A gauge that was never set.
    pub fn new() -> (r: Gauge)
        ensures
            r@ == None::<u64>,
    {
        Gauge { value: None }
    }

    /// Sets the value.
    pub fn set(&mut self, value: u64)
        ensures
            final(self)@ == Some(value),
    {
        self.value = Some(value);
    }

    /// The value last set, if any was.
    pub fn value(&self) -> (r: Option<u64>)
        ensures
            r == self@,
    {
        self.value
    }
}

impl Clone for Gauge {
    fn clone(&self) -> (r: Gauge)
        ensures
            r@ == self@,
    {
        Gauge { value: self.value }
    }
}

/// Samples of a quantity. Durations are sampled in nanoseconds.
#[derive(Debug)]
pub struct Histogram {
    samples: Vec<u64>,
}

impl Histogram {
    /// The samples, the oldest first.
    pub closed spec fn view(&self) -> Seq<u64> {
        self.samples@
    }

    /// A histogram without samples.
    pub fn new() -> (r: Histogram)
        ensures
            r@ == Seq::<u64>::empty(),
    {
        Histogram { samples: Vec::new() }
    }

    /// Adds a sample.
    pub fn record(&mut self, sample: u64)
        ensures
            final(self)@ == old(self)@.push(sample),
    {
        self.samples.push(sample);
    }

    /// The samples, the oldest first.
    pub fn samples(&self) -> (r: &Vec<u64>)
        ensures
            r@ == self@,
    {
        &self.samples
    }
}

impl Clone for Histogram {
    fn clone(&self) -> (r: Histogram)
        ensures
            r@ == self@,
    {
        Histogram { samples: copy_all(&self.samples) }
    }
}

/// Metrics of the component.
///
/// Conventions:
/// - Durations are sampled by histograms, and exported in seconds.
/// - Counters are monotonic event counts.
/// - Gauges reflect the current value of a quantity.
#[derive(Debug)]
pub struct Metrics {
    /// Count of times upstream receiver was closed/errored.
    pub upstream_errors: Counter,
    /// Count of messages received from the upstream source.
    pub upstream_messages: Counter,
    /// Time taken to decode a websocket message.
    pub websocket_decode_duration: Histogram,
    /// Time taken to process a message.
    pub block_processing_duration: Histogram,
    /// Time taken to clone flashblocks vector.
    pub flashblock_clone_duration: Histogram,
    /// Time taken to query header by number from database.
    pub db_query_header_duration: Histogram,
    /// Time taken to query state by block number from database.
    pub db_query_state_duration: Histogram,
    /// Time taken to set up EVM instance.
    pub evm_setup_duration: Histogram,
    /// Time taken to build data structures (transactions, receipts, etc.).
    pub data_structure_build_duration: Histogram,
    /// Time taken to process a single transaction (receipt building, etc.).
    pub transaction_processing_duration: Histogram,
    /// Time taken to execute a transaction in EVM.
    pub evm_transact_duration: Histogram,
    /// Time taken to process a all transaction (receipt building, etc.).
    pub total_txn_execution_duration: Histogram,
    /// Time taken to process a all transaction (receipt building, etc.).
    pub total_txn_processing_duration: Histogram,
    /// Time taken to update state overrides after transaction execution.
    pub state_override_update_duration: Histogram,
    /// Number of Flashblocks that arrive in an unexpected order.
    pub unexpected_block_order: Counter,
    /// Count of times flashblocks get_transaction_count is called.
    pub get_transaction_count: Counter,
    /// Count of times flashblocks get_transaction_receipt is called.
    pub get_transaction_receipt: Counter,
    /// Count of times flashblocks get_balance is called.
    pub get_balance: Counter,
    /// Count of times flashblocks get_block_by_number is called.
    pub get_block_by_number: Counter,
    /// Number of flashblocks in a block.
    pub flashblocks_in_block: Histogram,
    /// Count of times flashblocks are unable to be converted to blocks.
    pub block_processing_error: Counter,
    /// Count of times flashblocks call is called.
    pub call: Counter,
    /// Count of times flashblocks estimate_gas is called.
    pub estimate_gas: Counter,
    /// Count of times flashblocks simulate_v1 is called.
    pub simulate_v1: Counter,
    /// Count of times flashblocks get_logs is called.
    pub get_logs: Counter,
    /// Number of times pending snapshot was cleared because canonical caught up.
    pub pending_clear_catchup: Counter,
    /// Number of times pending snapshot was cleared because of reorg.
    pub pending_clear_reorg: Counter,
    /// Pending snapshot flashblock index (current).
    pub pending_snapshot_fb_index: Gauge,
    /// Pending snapshot block number (current).
    pub pending_snapshot_height: Gauge,
    /// Total number of WebSocket reconnection attempts.
    pub reconnect_attempts: Counter,
    /// Number of transactions in a processed block.
    pub total_transactions_processed: Histogram,
    /// Number of transactions of a processed block that were executed.
    pub total_transactions_executed: Histogram,
}

/// What a [`Metrics`] batch holds.
#[verifier::ext_equal]
pub struct MetricsView {
    pub upstream_errors: u64,
    pub upstream_messages: u64,
    pub websocket_decode_duration: Seq<u64>,
    pub block_processing_duration: Seq<u64>,
    pub flashblock_clone_duration: Seq<u64>,
    pub db_query_header_duration: Seq<u64>,
    pub db_query_state_duration: Seq<u64>,
    pub evm_setup_duration: Seq<u64>,
    pub data_structure_build_duration: Seq<u64>,
    pub transaction_processing_duration: Seq<u64>,
    pub evm_transact_duration: Seq<u64>,
    pub total_txn_execution_duration: Seq<u64>,
    pub total_txn_processing_duration: Seq<u64>,
    pub state_override_update_duration: Seq<u64>,
    pub unexpected_block_order: u64,
    pub get_transaction_count: u64,
    pub get_transaction_receipt: u64,
    pub get_balance: u64,
    pub get_block_by_number: u64,
    pub flashblocks_in_block: Seq<u64>,
    pub block_processing_error: u64,
    pub call: u64,
    pub estimate_gas: u64,
    pub simulate_v1: u64,
    pub get_logs: u64,
    pub pending_clear_catchup: u64,
    pub pending_clear_reorg: u64,
    pub pending_snapshot_fb_index: Option<u64>,
    pub pending_snapshot_height: Option<u64>,
    pub reconnect_attempts: u64,
    pub total_transactions_processed: Seq<u64>,
    pub total_transactions_executed: Seq<u64>,
}

/// The batch in which nothing is reported.
pub open spec fn blank_metrics() -> MetricsView {
    MetricsView {
        upstream_errors: 0,
        upstream_messages: 0,
        websocket_decode_duration: Seq::empty(),
        block_processing_duration: Seq::empty(),
        flashblock_clone_duration: Seq::empty(),
        db_query_header_duration: Seq::empty(),
        db_query_state_duration: Seq::empty(),
        evm_setup_duration: Seq::empty(),
        data_structure_build_duration: Seq::empty(),
        transaction_processing_duration: Seq::empty(),
        evm_transact_duration: Seq::empty(),
        total_txn_execution_duration: Seq::empty(),
        total_txn_processing_duration: Seq::empty(),
        state_override_update_duration: Seq::empty(),
        unexpected_block_order: 0,
        get_transaction_count: 0,
        get_transaction_receipt: 0,
        get_balance: 0,
        get_block_by_number: 0,
        flashblocks_in_block: Seq::empty(),
        block_processing_error: 0,
        call: 0,
        estimate_gas: 0,
        simulate_v1: 0,
        get_logs: 0,
        pending_clear_catchup: 0,
        pending_clear_reorg: 0,
        pending_snapshot_fb_index: None,
        pending_snapshot_height: None,
        reconnect_attempts: 0,
        total_transactions_processed: Seq::empty(),
        total_transactions_executed: Seq::empty(),
    }
}

/// A count after `n` more events.
pub open spec fn counted(count: u64, n: u64) -> u64 {
    ((count + n) % 0x1_0000_0000_0000_0000) as u64
}

impl Metrics {
    pub open spec fn view(&self) -> MetricsView {
        MetricsView {
            upstream_errors: self.upstream_errors@,
            upstream_messages: self.upstream_messages@,
            websocket_decode_duration: self.websocket_decode_duration@,
            block_processing_duration: self.block_processing_duration@,
            flashblock_clone_duration: self.flashblock_clone_duration@,
            db_query_header_duration: self.db_query_header_duration@,
            db_query_state_duration: self.db_query_state_duration@,
            evm_setup_duration: self.evm_setup_duration@,
            data_structure_build_duration: self.data_structure_build_duration@,
            transaction_processing_duration: self.transaction_processing_duration@,
            evm_transact_duration: self.evm_transact_duration@,
            total_txn_execution_duration: self.total_txn_execution_duration@,
            total_txn_processing_duration: self.total_txn_processing_duration@,
            state_override_update_duration: self.state_override_update_duration@,
            unexpected_block_order: self.unexpected_block_order@,
            get_transaction_count: self.get_transaction_count@,
            get_transaction_receipt: self.get_transaction_receipt@,
            get_balance: self.get_balance@,
            get_block_by_number: self.get_block_by_number@,
            flashblocks_in_block: self.flashblocks_in_block@,
            block_processing_error: self.block_processing_error@,
            call: self.call@,
            estimate_gas: self.estimate_gas@,
            simulate_v1: self.simulate_v1@,
            get_logs: self.get_logs@,
            pending_clear_catchup: self.pending_clear_catchup@,
            pending_clear_reorg: self.pending_clear_reorg@,
            pending_snapshot_fb_index: self.pending_snapshot_fb_index@,
            pending_snapshot_height: self.pending_snapshot_height@,
            reconnect_attempts: self.reconnect_attempts@,
            total_transactions_processed: self.total_transactions_processed@,
            total_transactions_executed: self.total_transactions_executed@,
        }
    }
}

impl Default for Metrics {
    /// A batch in which nothing is reported.
    fn default() -> (r: Metrics)
        ensures
            r@ == blank_metrics(),
    {
        Metrics {
            upstream_errors: Counter::new(),
            upstream_messages: Counter::new(),
            websocket_decode_duration: Histogram::new(),
            block_processing_duration: Histogram::new(),
            flashblock_clone_duration: Histogram::new(),
            db_query_header_duration: Histogram::new(),
            db_query_state_duration: Histogram::new(),
            evm_setup_duration: Histogram::new(),
            data_structure_build_duration: Histogram::new(),
            transaction_processing_duration: Histogram::new(),
            evm_transact_duration: Histogram::new(),
            total_txn_execution_duration: Histogram::new(),
            total_txn_processing_duration: Histogram::new(),
            state_override_update_duration: Histogram::new(),
            unexpected_block_order: Counter::new(),
            get_transaction_count: Counter::new(),
            get_transaction_receipt: Counter::new(),
            get_balance: Counter::new(),
            get_block_by_number: Counter::new(),
            flashblocks_in_block: Histogram::new(),
            block_processing_error: Counter::new(),
            call: Counter::new(),
            estimate_gas: Counter::new(),
            simulate_v1: Counter::new(),
            get_logs: Counter::new(),
            pending_clear_catchup: Counter::new(),
            pending_clear_reorg: Counter::new(),
            pending_snapshot_fb_index: Gauge::new(),
            pending_snapshot_height: Gauge::new(),
            reconnect_attempts: Counter::new(),
            total_transactions_processed: Histogram::new(),
            total_transactions_executed: Histogram::new(),
        }
    }
}

impl Clone for Metrics {
    fn clone(&self) -> (r: Metrics)
        ensures
            r@ == self@,
    {
        Metrics {
            upstream_errors: self.upstream_errors.clone(),
            upstream_messages: self.upstream_messages.clone(),
            websocket_decode_duration: self.websocket_decode_duration.clone(),
            block_processing_duration: self.block_processing_duration.clone(),
            flashblock_clone_duration: self.flashblock_clone_duration.clone(),
            db_query_header_duration: self.db_query_header_duration.clone(),
            db_query_state_duration: self.db_query_state_duration.clone(),
            evm_setup_duration: self.evm_setup_duration.clone(),
            data_structure_build_duration: self.data_structure_build_duration.clone(),
            transaction_processing_duration: self.transaction_processing_duration.clone(),
            evm_transact_duration: self.evm_transact_duration.clone(),
            total_txn_execution_duration: self.total_txn_execution_duration.clone(),
            total_txn_processing_duration: self.total_txn_processing_duration.clone(),
            state_override_update_duration: self.state_override_update_duration.clone(),
            unexpected_block_order: self.unexpected_block_order.clone(),
            get_transaction_count: self.get_transaction_count.clone(),
            get_transaction_receipt: self.get_transaction_receipt.clone(),
            get_balance: self.get_balance.clone(),
            get_block_by_number: self.get_block_by_number.clone(),
            flashblocks_in_block: self.flashblocks_in_block.clone(),
            block_processing_error: self.block_processing_error.clone(),
            call: self.call.clone(),
            estimate_gas: self.estimate_gas.clone(),
            simulate_v1: self.simulate_v1.clone(),
            get_logs: self.get_logs.clone(),
            pending_clear_catchup: self.pending_clear_catchup.clone(),
            pending_clear_reorg: self.pending_clear_reorg.clone(),
            pending_snapshot_fb_index: self.pending_snapshot_fb_index.clone(),
            pending_snapshot_height: self.pending_snapshot_height.clone(),
            reconnect_attempts: self.reconnect_attempts.clone(),
            total_transactions_processed: self.total_transactions_processed.clone(),
            total_transactions_executed: self.total_transactions_executed.clone(),
        }
    }
}

/// A counter counts each event, and starts over at two to the 64th power.
pub proof fn law_counter_counts(counter: &mut Counter, n: u64)
    requires
        call_ensures(Counter::increment, (counter, n), ()),
    ensures
        old(counter)@ + n <= u64::MAX ==> final(counter)@ == old(counter)@ + n,
        old(counter)@ + n > u64::MAX ==> final(counter)@ == old(counter)@ + n - u64::MAX - 1,
{
}

} // verus!
