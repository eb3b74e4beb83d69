//! The service status report: overall health from the exchange probe, and
//! uptime since start.
use vstd::prelude::*;
use vstd::string::*;

verus! {

/// HTTP status for a healthy service.
pub const HTTP_OK: u16 = 200;

/// HTTP status for a degraded service.
pub const HTTP_SERVICE_UNAVAILABLE: u16 = 503;

/// Health of one outside component, as probed.
pub struct ComponentHealth {
    pub healthy: bool,
    pub latency_ms: Option<u64>,
    pub error: Option<String>,
}

/// Health of the outside connections.
pub struct ConnectionStatus {
    pub mexc_api: ComponentHealth,
}

/// State of each internal service.
pub struct ServiceStatus {
    pub trading: String,
    pub market_data: String,
    pub storage: String,
}

/// The full status report of the service.
pub struct BotStatus {
    /// `healthy` or `degraded`.
    pub status: String,
    pub version: String,
    pub uptime_seconds: u64,
    pub started_at: u64,
    pub timestamp: String,
    pub connections: ConnectionStatus,
    pub services: ServiceStatus,
}

impl BotStatus {
    /// The report for a service started at `started_at` and asked at `now`
    /// (epoch seconds), given the exchange probe; with the HTTP status to
    /// answer with. Uptime does not go below zero when the clock steps back.
    pub fn report(
        version: String,
        started_at: u64,
        now: u64,
        timestamp: String,
        mexc_api: ComponentHealth,
    ) -> (r: (BotStatus, u16))
        ensures
            r.0.status@ == (if mexc_api.healthy {
                "healthy"@
            } else {
                "degraded"@
            }),
            r.1 == (if mexc_api.healthy {
                HTTP_OK
            } else {
                HTTP_SERVICE_UNAVAILABLE
            }),
            r.0.uptime_seconds == (if now >= started_at {
                now - started_at
            } else {
                0
            }),
            r.0.started_at == started_at,
            r.0.version == version,
            r.0.timestamp == timestamp,
            r.0.connections.mexc_api == mexc_api,
            r.0.services.trading@ == "operational"@,
            r.0.services.market_data@ == "operational"@,
            r.0.services.storage@ == "operational"@,
    {
        let healthy = mexc_api.healthy;
        let uptime = now.saturating_sub(started_at);
        let status = if healthy {
            String::from_str("healthy")
        } else {
            String::from_str("degraded")
        };
        let http = if healthy {
            HTTP_OK
        } else {
            HTTP_SERVICE_UNAVAILABLE
        };
        let report = BotStatus {
            status,
            version,
            uptime_seconds: uptime,
            started_at,
            timestamp,
            connections: ConnectionStatus { mexc_api },
            services: ServiceStatus {
                trading: String::from_str("operational"),
                market_data: String::from_str("operational"),
                storage: String::from_str("operational"),
            },
        };
        (report, http)
    }
}

/// Moving records from the earlier relational store; nothing is moved yet.
pub struct DataMigration;

impl DataMigration {
    pub fn migrate_orders() -> (r: Result<(), String>)
        ensures
            r is Ok,
    {
        Ok(())
    }

    pub fn migrate_positions() -> (r: Result<(), String>)
        ensures
            r is Ok,
    {
        Ok(())
    }

    pub fn migrate_calendar_events() -> (r: Result<(), String>)
        ensures
            r is Ok,
    {
        Ok(())
    }

    pub fn validate_migration() -> (r: Result<bool, String>)
        ensures
            r == Ok::<bool, String>(true),
    {
        Ok(true)
    }
}

} // verus!
