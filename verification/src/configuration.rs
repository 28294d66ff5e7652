//! Startup configuration: the values the gateway reads from its arguments,
//! with their defaults, and the reduced view the server itself consumes.
//! HTTP/2 is effective only together with TLS: the `enableHttp2` flag is read
//! only when TLS is enabled and is forced off otherwise.

use vstd::prelude::*;

use crate::arguments_parser::{numeric_of, ArgumentsParser};

verus! {

#[derive(Clone)]
pub struct Configuration {
    pub host: String,
    pub port: u16,
    pub powered_by: String,
    pub worker_thread_count: usize,
    pub maximum_blocking_thread_count: usize,
    pub blocking_thread_keep_alive_timeout_in_milliseconds: u64,
    pub is_web_socket_server_enabled: bool,
    pub is_tls_enabled: bool,
    pub tls_certificate_path: String,
    pub tls_private_key_path: String,
    pub is_http2_enabled: bool,
}

/// `c` holds exactly the values that the argument store `p` prescribes, with
/// the documented defaults.
pub open spec fn is_configuration_of(c: Configuration, p: ArgumentsParser) -> bool {
    &&& c.host@ == p.string_of("host"@, "127.0.0.1"@)
    &&& c.port as int == numeric_of(p.string_of("port"@, "61798"@), u16::MAX as int)
    &&& c.powered_by@ == p.string_of("poweredBy"@, "Volcano"@)
    &&& c.worker_thread_count as int == numeric_of(
        p.string_of("workerThreadCount"@, "16"@),
        usize::MAX as int,
    )
    &&& c.maximum_blocking_thread_count as int == numeric_of(
        p.string_of("maximumBlockingThreadCount"@, "1024"@),
        usize::MAX as int,
    )
    &&& c.blocking_thread_keep_alive_timeout_in_milliseconds as int == numeric_of(
        p.string_of("blockingThreadKeepAliveTimeout"@, "10000"@),
        u64::MAX as int,
    )
    &&& c.is_web_socket_server_enabled == p.boolean_of("enableWebSocketServer"@, "false"@)
    &&& c.is_tls_enabled == p.boolean_of("enableTls"@, "false"@)
    &&& c.tls_certificate_path@ == p.string_of("tlsCertificatePath"@, "tls_certificate.pem"@)
    &&& c.tls_private_key_path@ == p.string_of("tlsPrivateKeyPath"@, "tls_private_key.key"@)
    &&& c.is_http2_enabled == (p.boolean_of("enableTls"@, "false"@) && p.boolean_of(
        "enableHttp2"@,
        "false"@,
    ))
}

impl Configuration {
    /// Read the full configuration out of the argument store, applying the
    /// documented defaults; `is_http2_enabled` is true only when TLS is also
    /// enabled.
    pub fn from(arguments_parser: &ArgumentsParser) -> (r: Configuration)
        ensures
            is_configuration_of(r, *arguments_parser),
    {
        let host = arguments_parser.get_as_string("host", "127.0.0.1");
        let port = arguments_parser.get_as_u16("port", "61798");
        let powered_by = arguments_parser.get_as_string("poweredBy", "Volcano");
        let worker_thread_count = arguments_parser.get_as_usize("workerThreadCount", "16");
        let maximum_blocking_thread_count = arguments_parser.get_as_usize(
            "maximumBlockingThreadCount",
            "1024",
        );
        let blocking_thread_keep_alive_timeout_in_milliseconds = arguments_parser.get_as_u64(
            "blockingThreadKeepAliveTimeout",
            "10000",
        );
        let is_web_socket_server_enabled = arguments_parser.get_as_boolean(
            "enableWebSocketServer",
            "false",
        );
        let is_tls_enabled = arguments_parser.get_as_boolean("enableTls", "false");
        let tls_certificate_path = arguments_parser.get_as_string(
            "tlsCertificatePath",
            "tls_certificate.pem",
        );
        let tls_private_key_path = arguments_parser.get_as_string(
            "tlsPrivateKeyPath",
            "tls_private_key.key",
        );
        let is_http2_enabled = is_tls_enabled && arguments_parser.get_as_boolean(
            "enableHttp2",
            "false",
        );
        Configuration {
            host,
            port,
            powered_by,
            worker_thread_count,
            maximum_blocking_thread_count,
            blocking_thread_keep_alive_timeout_in_milliseconds,
            is_web_socket_server_enabled,
            is_tls_enabled,
            tls_certificate_path,
            tls_private_key_path,
            is_http2_enabled,
        }
    }
}

/// Law: a configuration read from arguments that do not enable TLS never has
/// HTTP/2 enabled, whatever the raw `enableHttp2` flag says.
pub proof fn lemma_http2_requires_tls(c: Configuration, p: ArgumentsParser)
    requires
        is_configuration_of(c, p),
        !p.boolean_of("enableTls"@, "false"@),
    ensures
        !c.is_http2_enabled,
{
}

#[derive(Clone)]
pub struct HttpServerConfiguration {
    pub host: String,
    pub port: u16,
    pub powered_by: String,
    pub is_web_socket_server_enabled: bool,
    pub is_tls_enabled: bool,
    pub tls_certificate_path: String,
    pub tls_private_key_path: String,
    pub is_http2_enabled: bool,
}

impl HttpServerConfiguration {
    /// The server's view of the configuration: the same values minus the
    /// runtime thread settings.
    pub fn from(configuration: Configuration) -> (r: HttpServerConfiguration)
        ensures
            r.host == configuration.host,
            r.port == configuration.port,
            r.powered_by == configuration.powered_by,
            r.is_web_socket_server_enabled == configuration.is_web_socket_server_enabled,
            r.is_tls_enabled == configuration.is_tls_enabled,
            r.tls_certificate_path == configuration.tls_certificate_path,
            r.tls_private_key_path == configuration.tls_private_key_path,
            r.is_http2_enabled == configuration.is_http2_enabled,
    {
        HttpServerConfiguration {
            host: configuration.host,
            port: configuration.port,
            powered_by: configuration.powered_by,
            is_web_socket_server_enabled: configuration.is_web_socket_server_enabled,
            is_tls_enabled: configuration.is_tls_enabled,
            tls_certificate_path: configuration.tls_certificate_path,
            tls_private_key_path: configuration.tls_private_key_path,
            is_http2_enabled: configuration.is_http2_enabled,
        }
    }
}

} // verus!
