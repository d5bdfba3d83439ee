//! Performance counters of the application: network, terminal, protocol,
//! memory and timing.

use vstd::prelude::*;

verus! {

/// Network I/O counters.
#[derive(Debug, Clone, Copy, PartialEq, Eq, Structural)]
pub struct NetworkMetrics {
    pub bytes_received: u64,
    pub bytes_sent: u64,
    pub packets_received: u64,
    pub packets_sent: u64,
    pub connection_count: u64,
    pub buffer_pool_hits: u64,
    pub buffer_pool_misses: u64,
}

/// Terminal and screen buffer counters.
#[derive(Debug, Clone, Copy, PartialEq, Eq, Structural)]
pub struct TerminalMetrics {
    pub screen_updates: u64,
    pub character_writes: u64,
    pub buffer_clears: u64,
    pub region_operations: u64,
    pub cache_hits: u64,
    pub cache_misses: u64,
}

/// Protocol processing counters.
#[derive(Debug, Clone, Copy, PartialEq, Eq, Structural)]
pub struct ProtocolMetrics {
    pub commands_processed: u64,
    pub ebcdic_conversions: u64,
    pub field_detections: u64,
    pub structured_fields: u64,
    pub errors_encountered: u64,
}

/// Memory counters.
#[derive(Debug, Clone, Copy, PartialEq, Eq, Structural)]
pub struct MemoryMetrics {
    pub allocations: u64,
    pub deallocations: u64,
    pub buffer_reuses: u64,
    pub peak_memory_usage: u64,
    pub current_memory_usage: u64,
}

/// Timing counters (times in nanoseconds, uptime in seconds).
#[derive(Debug, Clone, Copy, PartialEq, Eq, Structural)]
pub struct TimingMetrics {
    pub total_uptime: u64,
    pub average_command_time: u64,
    pub max_command_time: u64,
    pub total_commands: u64,
}

/// All performance counters.
#[derive(Debug, Clone, Copy, PartialEq, Eq, Structural)]
pub struct PerformanceMetrics {
    pub network_metrics: NetworkMetrics,
    pub terminal_metrics: TerminalMetrics,
    pub protocol_metrics: ProtocolMetrics,
    pub memory_metrics: MemoryMetrics,
    pub timing_metrics: TimingMetrics,
}

/// Every counter at zero.
pub open spec fn zero_metrics() -> PerformanceMetrics {
    PerformanceMetrics {
        network_metrics: NetworkMetrics {
            bytes_received: 0,
            bytes_sent: 0,
            packets_received: 0,
            packets_sent: 0,
            connection_count: 0,
            buffer_pool_hits: 0,
            buffer_pool_misses: 0,
        },
        terminal_metrics: TerminalMetrics {
            screen_updates: 0,
            character_writes: 0,
            buffer_clears: 0,
            region_operations: 0,
            cache_hits: 0,
            cache_misses: 0,
        },
        protocol_metrics: ProtocolMetrics {
            commands_processed: 0,
            ebcdic_conversions: 0,
            field_detections: 0,
            structured_fields: 0,
            errors_encountered: 0,
        },
        memory_metrics: MemoryMetrics {
            allocations: 0,
            deallocations: 0,
            buffer_reuses: 0,
            peak_memory_usage: 0,
            current_memory_usage: 0,
        },
        timing_metrics: TimingMetrics { total_uptime: 0, average_command_time: 0, max_command_time: 0, total_commands: 0 },
    }
}

impl PerformanceMetrics {
    /// Counters all at zero.
    pub fn new() -> (r: Self)
        ensures
            r == zero_metrics(),
    {
        PerformanceMetrics {
            network_metrics: NetworkMetrics {
                bytes_received: 0,
                bytes_sent: 0,
                packets_received: 0,
                packets_sent: 0,
                connection_count: 0,
                buffer_pool_hits: 0,
                buffer_pool_misses: 0,
            },
            terminal_metrics: TerminalMetrics {
                screen_updates: 0,
                character_writes: 0,
                buffer_clears: 0,
                region_operations: 0,
                cache_hits: 0,
                cache_misses: 0,
            },
            protocol_metrics: ProtocolMetrics {
                commands_processed: 0,
                ebcdic_conversions: 0,
                field_detections: 0,
                structured_fields: 0,
                errors_encountered: 0,
            },
            memory_metrics: MemoryMetrics {
                allocations: 0,
                deallocations: 0,
                buffer_reuses: 0,
                peak_memory_usage: 0,
                current_memory_usage: 0,
            },
            timing_metrics: TimingMetrics { total_uptime: 0, average_command_time: 0, max_command_time: 0, total_commands: 0 },
        }
    }

    /// Every counter back to zero.
    pub fn reset(&mut self)
        ensures
            *final(self) == zero_metrics(),
    {
        *self = PerformanceMetrics::new();
    }
}

impl Default for PerformanceMetrics {
    fn default() -> (r: Self)
        ensures
            r == zero_metrics(),
    {
        PerformanceMetrics::new()
    }
}

} // verus!
