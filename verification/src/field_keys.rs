//! Typed representation of ssh_config(5) keywords.
//!
//! Keyword list of the OpenSSH 9.9p2 ssh_config(5) manual page:
//! https://man7.org/linux/man-pages/man5/ssh_config.5.html
//!
//! Per ssh_config(5), known keywords are case-insensitive.
use crate::chars::{ascii_lower, chars_of, seq_eq_ignore_ascii_case, str_eq, string_from};
use vstd::prelude::*;

verus! {

/// How many keywords ssh_config(5) documents.
pub const KNOWN_KEYS: u8 = 101;

/// A keyword of ssh_config(5), or any other key.
#[derive(Debug, Clone, Hash)]
pub enum FieldKey {
    Host,
    Match,
    AddKeysToAgent,
    AddressFamily,
    BatchMode,
    BindAddress,
    BindInterface,
    CanonicalDomains,
    CanonicalizeFallbackLocal,
    CanonicalizeHostname,
    CanonicalizeMaxDots,
    CanonicalizePermittedCNAMEs,
    CASignatureAlgorithms,
    CertificateFile,
    ChannelTimeout,
    CheckHostIP,
    Ciphers,
    ClearAllForwardings,
    Compression,
    ConnectionAttempts,
    ConnectTimeout,
    ControlMaster,
    ControlPath,
    ControlPersist,
    DynamicForward,
    EnableEscapeCommandline,
    EnableSSHKeysign,
    EscapeChar,
    ExitOnForwardFailure,
    FingerprintHash,
    ForkAfterAuthentication,
    ForwardAgent,
    ForwardX11,
    ForwardX11Timeout,
    ForwardX11Trusted,
    GatewayPorts,
    GlobalKnownHostsFile,
    GSSAPIAuthentication,
    GSSAPIDelegateCredentials,
    HashKnownHosts,
    HostbasedAcceptedAlgorithms,
    HostbasedAuthentication,
    HostKeyAlgorithms,
    HostKeyAlias,
    Hostname,
    IdentitiesOnly,
    IdentityAgent,
    IdentityFile,
    IgnoreUnknown,
    Include,
    IPQoS,
    KbdInteractiveAuthentication,
    KbdInteractiveDevices,
    KexAlgorithms,
    KnownHostsCommand,
    LocalCommand,
    LocalForward,
    LogLevel,
    LogVerbose,
    MACs,
    NoHostAuthenticationForLocalhost,
    NumberOfPasswordPrompts,
    ObscureKeystrokeTiming,
    PasswordAuthentication,
    PermitLocalCommand,
    PermitRemoteOpen,
    PKCS11Provider,
    Port,
    PreferredAuthentications,
    ProxyCommand,
    ProxyJump,
    ProxyUseFdpass,
    PubkeyAcceptedAlgorithms,
    PubkeyAuthentication,
    RekeyLimit,
    RemoteCommand,
    RemoteForward,
    RequestTTY,
    RequiredRSASize,
    RevokedHostKeys,
    SecurityKeyProvider,
    SendEnv,
    ServerAliveCountMax,
    ServerAliveInterval,
    SessionType,
    SetEnv,
    StdinNull,
    StreamLocalBindMask,
    StreamLocalBindUnlink,
    StrictHostKeyChecking,
    SyslogFacility,
    TCPKeepAlive,
    Tag,
    Tunnel,
    TunnelDevice,
    UpdateHostKeys,
    User,
    UserKnownHostsFile,
    VerifyHostKeyDNS,
    VisualHostKey,
    XAuthLocation,
    Other(String),
}

/// The two keywords that open a section.
#[derive(Debug, Clone, Copy, PartialEq, Eq, Structural)]
pub enum SelectorKind {
    Host,
    Match,
}

/// The mathematical value of a key: its position in the keyword list
/// (`KNOWN_KEYS` for any other key) and, for another key, its text.
pub struct KeyView {
    pub ordinal: int,
    pub other: Seq<char>,
}

/// The canonical spelling of the `i`-th keyword.
pub open spec fn known_name(i: int) -> Seq<char> {
    if i == 0 {
        seq!['H', 'o', 's', 't']
    } else     if i == 1 {
        seq!['M', 'a', 't', 'c', 'h']
    } else     if i == 2 {
        seq!['A', 'd', 'd', 'K', 'e', 'y', 's', 'T', 'o', 'A', 'g', 'e', 'n', 't']
    } else     if i == 3 {
        seq!['A', 'd', 'd', 'r', 'e', 's', 's', 'F', 'a', 'm', 'i', 'l', 'y']
    } else     if i == 4 {
        seq!['B', 'a', 't', 'c', 'h', 'M', 'o', 'd', 'e']
    } else     if i == 5 {
        seq!['B', 'i', 'n', 'd', 'A', 'd', 'd', 'r', 'e', 's', 's']
    } else     if i == 6 {
        seq!['B', 'i', 'n', 'd', 'I', 'n', 't', 'e', 'r', 'f', 'a', 'c', 'e']
    } else     if i == 7 {
        seq!['C', 'a', 'n', 'o', 'n', 'i', 'c', 'a', 'l', 'D', 'o', 'm', 'a', 'i', 'n', 's']
    } else     if i == 8 {
        seq!['C', 'a', 'n', 'o', 'n', 'i', 'c', 'a', 'l', 'i', 'z', 'e', 'F', 'a', 'l', 'l', 'b', 'a', 'c', 'k', 'L', 'o', 'c', 'a', 'l']
    } else     if i == 9 {
        seq!['C', 'a', 'n', 'o', 'n', 'i', 'c', 'a', 'l', 'i', 'z', 'e', 'H', 'o', 's', 't', 'n', 'a', 'm', 'e']
    } else     if i == 10 {
        seq!['C', 'a', 'n', 'o', 'n', 'i', 'c', 'a', 'l', 'i', 'z', 'e', 'M', 'a', 'x', 'D', 'o', 't', 's']
    } else     if i == 11 {
        seq!['C', 'a', 'n', 'o', 'n', 'i', 'c', 'a', 'l', 'i', 'z', 'e', 'P', 'e', 'r', 'm', 'i', 't', 't', 'e', 'd', 'C', 'N', 'A', 'M', 'E', 's']
    } else     if i == 12 {
        seq!['C', 'A', 'S', 'i', 'g', 'n', 'a', 't', 'u', 'r', 'e', 'A', 'l', 'g', 'o', 'r', 'i', 't', 'h', 'm', 's']
    } else     if i == 13 {
        seq!['C', 'e', 'r', 't', 'i', 'f', 'i', 'c', 'a', 't', 'e', 'F', 'i', 'l', 'e']
    } else     if i == 14 {
        seq!['C', 'h', 'a', 'n', 'n', 'e', 'l', 'T', 'i', 'm', 'e', 'o', 'u', 't']
    } else     if i == 15 {
        seq!['C', 'h', 'e', 'c', 'k', 'H', 'o', 's', 't', 'I', 'P']
    } else     if i == 16 {
        seq!['C', 'i', 'p', 'h', 'e', 'r', 's']
    } else     if i == 17 {
        seq!['C', 'l', 'e', 'a', 'r', 'A', 'l', 'l', 'F', 'o', 'r', 'w', 'a', 'r', 'd', 'i', 'n', 'g', 's']
    } else     if i == 18 {
        seq!['C', 'o', 'm', 'p', 'r', 'e', 's', 's', 'i', 'o', 'n']
    } else     if i == 19 {
        seq!['C', 'o', 'n', 'n', 'e', 'c', 't', 'i', 'o', 'n', 'A', 't', 't', 'e', 'm', 'p', 't', 's']
    } else     if i == 20 {
        seq!['C', 'o', 'n', 'n', 'e', 'c', 't', 'T', 'i', 'm', 'e', 'o', 'u', 't']
    } else     if i == 21 {
        seq!['C', 'o', 'n', 't', 'r', 'o', 'l', 'M', 'a', 's', 't', 'e', 'r']
    } else     if i == 22 {
        seq!['C', 'o', 'n', 't', 'r', 'o', 'l', 'P', 'a', 't', 'h']
    } else     if i == 23 {
        seq!['C', 'o', 'n', 't', 'r', 'o', 'l', 'P', 'e', 'r', 's', 'i', 's', 't']
    } else     if i == 24 {
        seq!['D', 'y', 'n', 'a', 'm', 'i', 'c', 'F', 'o', 'r', 'w', 'a', 'r', 'd']
    } else     if i == 25 {
        seq!['E', 'n', 'a', 'b', 'l', 'e', 'E', 's', 'c', 'a', 'p', 'e', 'C', 'o', 'm', 'm', 'a', 'n', 'd', 'l', 'i', 'n', 'e']
    } else     if i == 26 {
        seq!['E', 'n', 'a', 'b', 'l', 'e', 'S', 'S', 'H', 'K', 'e', 'y', 's', 'i', 'g', 'n']
    } else     if i == 27 {
        seq!['E', 's', 'c', 'a', 'p', 'e', 'C', 'h', 'a', 'r']
    } else     if i == 28 {
        seq!['E', 'x', 'i', 't', 'O', 'n', 'F', 'o', 'r', 'w', 'a', 'r', 'd', 'F', 'a', 'i', 'l', 'u', 'r', 'e']
    } else     if i == 29 {
        seq!['F', 'i', 'n', 'g', 'e', 'r', 'p', 'r', 'i', 'n', 't', 'H', 'a', 's', 'h']
    } else     if i == 30 {
        seq!['F', 'o', 'r', 'k', 'A', 'f', 't', 'e', 'r', 'A', 'u', 't', 'h', 'e', 'n', 't', 'i', 'c', 'a', 't', 'i', 'o', 'n']
    } else     if i == 31 {
        seq!['F', 'o', 'r', 'w', 'a', 'r', 'd', 'A', 'g', 'e', 'n', 't']
    } else     if i == 32 {
        seq!['F', 'o', 'r', 'w', 'a', 'r', 'd', 'X', '1', '1']
    } else     if i == 33 {
        seq!['F', 'o', 'r', 'w', 'a', 'r', 'd', 'X', '1', '1', 'T', 'i', 'm', 'e', 'o', 'u', 't']
    } else     if i == 34 {
        seq!['F', 'o', 'r', 'w', 'a', 'r', 'd', 'X', '1', '1', 'T', 'r', 'u', 's', 't', 'e', 'd']
    } else     if i == 35 {
        seq!['G', 'a', 't', 'e', 'w', 'a', 'y', 'P', 'o', 'r', 't', 's']
    } else     if i == 36 {
        seq!['G', 'l', 'o', 'b', 'a', 'l', 'K', 'n', 'o', 'w', 'n', 'H', 'o', 's', 't', 's', 'F', 'i', 'l', 'e']
    } else     if i == 37 {
        seq!['G', 'S', 'S', 'A', 'P', 'I', 'A', 'u', 't', 'h', 'e', 'n', 't', 'i', 'c', 'a', 't', 'i', 'o', 'n']
    } else     if i == 38 {
        seq!['G', 'S', 'S', 'A', 'P', 'I', 'D', 'e', 'l', 'e', 'g', 'a', 't', 'e', 'C', 'r', 'e', 'd', 'e', 'n', 't', 'i', 'a', 'l', 's']
    } else     if i == 39 {
        seq!['H', 'a', 's', 'h', 'K', 'n', 'o', 'w', 'n', 'H', 'o', 's', 't', 's']
    } else     if i == 40 {
        seq!['H', 'o', 's', 't', 'b', 'a', 's', 'e', 'd', 'A', 'c', 'c', 'e', 'p', 't', 'e', 'd', 'A', 'l', 'g', 'o', 'r', 'i', 't', 'h', 'm', 's']
    } else     if i == 41 {
        seq!['H', 'o', 's', 't', 'b', 'a', 's', 'e', 'd', 'A', 'u', 't', 'h', 'e', 'n', 't', 'i', 'c', 'a', 't', 'i', 'o', 'n']
    } else     if i == 42 {
        seq!['H', 'o', 's', 't', 'K', 'e', 'y', 'A', 'l', 'g', 'o', 'r', 'i', 't', 'h', 'm', 's']
    } else     if i == 43 {
        seq!['H', 'o', 's', 't', 'K', 'e', 'y', 'A', 'l', 'i', 'a', 's']
    } else     if i == 44 {
        seq!['H', 'o', 's', 't', 'n', 'a', 'm', 'e']
    } else     if i == 45 {
        seq!['I', 'd', 'e', 'n', 't', 'i', 't', 'i', 'e', 's', 'O', 'n', 'l', 'y']
    } else     if i == 46 {
        seq!['I', 'd', 'e', 'n', 't', 'i', 't', 'y', 'A', 'g', 'e', 'n', 't']
    } else     if i == 47 {
        seq!['I', 'd', 'e', 'n', 't', 'i', 't', 'y', 'F', 'i', 'l', 'e']
    } else     if i == 48 {
        seq!['I', 'g', 'n', 'o', 'r', 'e', 'U', 'n', 'k', 'n', 'o', 'w', 'n']
    } else     if i == 49 {
        seq!['I', 'n', 'c', 'l', 'u', 'd', 'e']
    } else     if i == 50 {
        seq!['I', 'P', 'Q', 'o', 'S']
    } else     if i == 51 {
        seq!['K', 'b', 'd', 'I', 'n', 't', 'e', 'r', 'a', 'c', 't', 'i', 'v', 'e', 'A', 'u', 't', 'h', 'e', 'n', 't', 'i', 'c', 'a', 't', 'i', 'o', 'n']
    } else     if i == 52 {
        seq!['K', 'b', 'd', 'I', 'n', 't', 'e', 'r', 'a', 'c', 't', 'i', 'v', 'e', 'D', 'e', 'v', 'i', 'c', 'e', 's']
    } else     if i == 53 {
        seq!['K', 'e', 'x', 'A', 'l', 'g', 'o', 'r', 'i', 't', 'h', 'm', 's']
    } else     if i == 54 {
        seq!['K', 'n', 'o', 'w', 'n', 'H', 'o', 's', 't', 's', 'C', 'o', 'm', 'm', 'a', 'n', 'd']
    } else     if i == 55 {
        seq!['L', 'o', 'c', 'a', 'l', 'C', 'o', 'm', 'm', 'a', 'n', 'd']
    } else     if i == 56 {
        seq!['L', 'o', 'c', 'a', 'l', 'F', 'o', 'r', 'w', 'a', 'r', 'd']
    } else     if i == 57 {
        seq!['L', 'o', 'g', 'L', 'e', 'v', 'e', 'l']
    } else     if i == 58 {
        seq!['L', 'o', 'g', 'V', 'e', 'r', 'b', 'o', 's', 'e']
    } else     if i == 59 {
        seq!['M', 'A', 'C', 's']
    } else     if i == 60 {
        seq!['N', 'o', 'H', 'o', 's', 't', 'A', 'u', 't', 'h', 'e', 'n', 't', 'i', 'c', 'a', 't', 'i', 'o', 'n', 'F', 'o', 'r', 'L', 'o', 'c', 'a', 'l', 'h', 'o', 's', 't']
    } else     if i == 61 {
        seq!['N', 'u', 'm', 'b', 'e', 'r', 'O', 'f', 'P', 'a', 's', 's', 'w', 'o', 'r', 'd', 'P', 'r', 'o', 'm', 'p', 't', 's']
    } else     if i == 62 {
        seq!['O', 'b', 's', 'c', 'u', 'r', 'e', 'K', 'e', 'y', 's', 't', 'r', 'o', 'k', 'e', 'T', 'i', 'm', 'i', 'n', 'g']
    } else     if i == 63 {
        seq!['P', 'a', 's', 's', 'w', 'o', 'r', 'd', 'A', 'u', 't', 'h', 'e', 'n', 't', 'i', 'c', 'a', 't', 'i', 'o', 'n']
    } else     if i == 64 {
        seq!['P', 'e', 'r', 'm', 'i', 't', 'L', 'o', 'c', 'a', 'l', 'C', 'o', 'm', 'm', 'a', 'n', 'd']
    } else     if i == 65 {
        seq!['P', 'e', 'r', 'm', 'i', 't', 'R', 'e', 'm', 'o', 't', 'e', 'O', 'p', 'e', 'n']
    } else     if i == 66 {
        seq!['P', 'K', 'C', 'S', '1', '1', 'P', 'r', 'o', 'v', 'i', 'd', 'e', 'r']
    } else     if i == 67 {
        seq!['P', 'o', 'r', 't']
    } else     if i == 68 {
        seq!['P', 'r', 'e', 'f', 'e', 'r', 'r', 'e', 'd', 'A', 'u', 't', 'h', 'e', 'n', 't', 'i', 'c', 'a', 't', 'i', 'o', 'n', 's']
    } else     if i == 69 {
        seq!['P', 'r', 'o', 'x', 'y', 'C', 'o', 'm', 'm', 'a', 'n', 'd']
    } else     if i == 70 {
        seq!['P', 'r', 'o', 'x', 'y', 'J', 'u', 'm', 'p']
    } else     if i == 71 {
        seq!['P', 'r', 'o', 'x', 'y', 'U', 's', 'e', 'F', 'd', 'p', 'a', 's', 's']
    } else     if i == 72 {
        seq!['P', 'u', 'b', 'k', 'e', 'y', 'A', 'c', 'c', 'e', 'p', 't', 'e', 'd', 'A', 'l', 'g', 'o', 'r', 'i', 't', 'h', 'm', 's']
    } else     if i == 73 {
        seq!['P', 'u', 'b', 'k', 'e', 'y', 'A', 'u', 't', 'h', 'e', 'n', 't', 'i', 'c', 'a', 't', 'i', 'o', 'n']
    } else     if i == 74 {
        seq!['R', 'e', 'k', 'e', 'y', 'L', 'i', 'm', 'i', 't']
    } else     if i == 75 {
        seq!['R', 'e', 'm', 'o', 't', 'e', 'C', 'o', 'm', 'm', 'a', 'n', 'd']
    } else     if i == 76 {
        seq!['R', 'e', 'm', 'o', 't', 'e', 'F', 'o', 'r', 'w', 'a', 'r', 'd']
    } else     if i == 77 {
        seq!['R', 'e', 'q', 'u', 'e', 's', 't', 'T', 'T', 'Y']
    } else     if i == 78 {
        seq!['R', 'e', 'q', 'u', 'i', 'r', 'e', 'd', 'R', 'S', 'A', 'S', 'i', 'z', 'e']
    } else     if i == 79 {
        seq!['R', 'e', 'v', 'o', 'k', 'e', 'd', 'H', 'o', 's', 't', 'K', 'e', 'y', 's']
    } else     if i == 80 {
        seq!['S', 'e', 'c', 'u', 'r', 'i', 't', 'y', 'K', 'e', 'y', 'P', 'r', 'o', 'v', 'i', 'd', 'e', 'r']
    } else     if i == 81 {
        seq!['S', 'e', 'n', 'd', 'E', 'n', 'v']
    } else     if i == 82 {
        seq!['S', 'e', 'r', 'v', 'e', 'r', 'A', 'l', 'i', 'v', 'e', 'C', 'o', 'u', 'n', 't', 'M', 'a', 'x']
    } else     if i == 83 {
        seq!['S', 'e', 'r', 'v', 'e', 'r', 'A', 'l', 'i', 'v', 'e', 'I', 'n', 't', 'e', 'r', 'v', 'a', 'l']
    } else     if i == 84 {
        seq!['S', 'e', 's', 's', 'i', 'o', 'n', 'T', 'y', 'p', 'e']
    } else     if i == 85 {
        seq!['S', 'e', 't', 'E', 'n', 'v']
    } else     if i == 86 {
        seq!['S', 't', 'd', 'i', 'n', 'N', 'u', 'l', 'l']
    } else     if i == 87 {
        seq!['S', 't', 'r', 'e', 'a', 'm', 'L', 'o', 'c', 'a', 'l', 'B', 'i', 'n', 'd', 'M', 'a', 's', 'k']
    } else     if i == 88 {
        seq!['S', 't', 'r', 'e', 'a', 'm', 'L', 'o', 'c', 'a', 'l', 'B', 'i', 'n', 'd', 'U', 'n', 'l', 'i', 'n', 'k']
    } else     if i == 89 {
        seq!['S', 't', 'r', 'i', 'c', 't', 'H', 'o', 's', 't', 'K', 'e', 'y', 'C', 'h', 'e', 'c', 'k', 'i', 'n', 'g']
    } else     if i == 90 {
        seq!['S', 'y', 's', 'l', 'o', 'g', 'F', 'a', 'c', 'i', 'l', 'i', 't', 'y']
    } else     if i == 91 {
        seq!['T', 'C', 'P', 'K', 'e', 'e', 'p', 'A', 'l', 'i', 'v', 'e']
    } else     if i == 92 {
        seq!['T', 'a', 'g']
    } else     if i == 93 {
        seq!['T', 'u', 'n', 'n', 'e', 'l']
    } else     if i == 94 {
        seq!['T', 'u', 'n', 'n', 'e', 'l', 'D', 'e', 'v', 'i', 'c', 'e']
    } else     if i == 95 {
        seq!['U', 'p', 'd', 'a', 't', 'e', 'H', 'o', 's', 't', 'K', 'e', 'y', 's']
    } else     if i == 96 {
        seq!['U', 's', 'e', 'r']
    } else     if i == 97 {
        seq!['U', 's', 'e', 'r', 'K', 'n', 'o', 'w', 'n', 'H', 'o', 's', 't', 's', 'F', 'i', 'l', 'e']
    } else     if i == 98 {
        seq!['V', 'e', 'r', 'i', 'f', 'y', 'H', 'o', 's', 't', 'K', 'e', 'y', 'D', 'N', 'S']
    } else     if i == 99 {
        seq!['V', 'i', 's', 'u', 'a', 'l', 'H', 'o', 's', 't', 'K', 'e', 'y']
    } else     if i == 100 {
        seq!['X', 'A', 'u', 't', 'h', 'L', 'o', 'c', 'a', 't', 'i', 'o', 'n']
    } else {
        Seq::empty()
    }
}

/// The view of the `i`-th keyword.
pub open spec fn known_view(i: int) -> KeyView {
    KeyView { ordinal: i, other: Seq::empty() }
}

/// The text a key is written with: the canonical spelling of a keyword, or
/// the text of another key.
pub open spec fn key_name(k: KeyView) -> Seq<char> {
    if 0 <= k.ordinal < KNOWN_KEYS {
        known_name(k.ordinal)
    } else {
        k.other
    }
}

/// Whether values of this key accumulate (each occurrence is appended)
/// rather than following first-match-wins.
pub open spec fn key_is_cumulative(k: KeyView) -> bool {
    k.ordinal == 47 || k.ordinal == 13 || k.ordinal == 81 || k.ordinal == 85 || k.ordinal == 56 || k.ordinal == 76 || k.ordinal == 24
}

/// Whether this key opens a section (`Host` or `Match`).
pub open spec fn key_is_selector(k: KeyView) -> bool {
    k.ordinal == 0 || k.ordinal == 1
}

/// The first keyword, from position `i` on, whose lower-case spelling is `l`.
pub open spec fn find_known(l: Seq<char>, i: nat) -> Option<nat>
    decreases KNOWN_KEYS - i,
{
    if i >= KNOWN_KEYS {
        None
    } else if ascii_lower(known_name(i as int)) == l {
        Some(i)
    } else {
        find_known(l, i + 1)
    }
}

/// The key that `s` names: the keyword spelled like `s` up to ASCII case, or
/// another key holding `s` as it is.
pub open spec fn parse_key(s: Seq<char>) -> KeyView {
    match find_known(ascii_lower(s), 0) {
        Some(i) => known_view(i as int),
        None => KeyView { ordinal: KNOWN_KEYS as int, other: s },
    }
}

impl View for FieldKey {
    type V = KeyView;

    open spec fn view(&self) -> KeyView {
        match self {
            FieldKey::Other(s) => KeyView { ordinal: KNOWN_KEYS as int, other: s@ },
            _ => known_view(self.spec_ordinal()),
        }
    }
}

impl FieldKey {
    /// The position of a keyword in the list; `KNOWN_KEYS` for another key.
    pub open spec fn spec_ordinal(&self) -> int {
        match self {
            FieldKey::Host => 0,
            FieldKey::Match => 1,
            FieldKey::AddKeysToAgent => 2,
            FieldKey::AddressFamily => 3,
            FieldKey::BatchMode => 4,
            FieldKey::BindAddress => 5,
            FieldKey::BindInterface => 6,
            FieldKey::CanonicalDomains => 7,
            FieldKey::CanonicalizeFallbackLocal => 8,
            FieldKey::CanonicalizeHostname => 9,
            FieldKey::CanonicalizeMaxDots => 10,
            FieldKey::CanonicalizePermittedCNAMEs => 11,
            FieldKey::CASignatureAlgorithms => 12,
            FieldKey::CertificateFile => 13,
            FieldKey::ChannelTimeout => 14,
            FieldKey::CheckHostIP => 15,
            FieldKey::Ciphers => 16,
            FieldKey::ClearAllForwardings => 17,
            FieldKey::Compression => 18,
            FieldKey::ConnectionAttempts => 19,
            FieldKey::ConnectTimeout => 20,
            FieldKey::ControlMaster => 21,
            FieldKey::ControlPath => 22,
            FieldKey::ControlPersist => 23,
            FieldKey::DynamicForward => 24,
            FieldKey::EnableEscapeCommandline => 25,
            FieldKey::EnableSSHKeysign => 26,
            FieldKey::EscapeChar => 27,
            FieldKey::ExitOnForwardFailure => 28,
            FieldKey::FingerprintHash => 29,
            FieldKey::ForkAfterAuthentication => 30,
            FieldKey::ForwardAgent => 31,
            FieldKey::ForwardX11 => 32,
            FieldKey::ForwardX11Timeout => 33,
            FieldKey::ForwardX11Trusted => 34,
            FieldKey::GatewayPorts => 35,
            FieldKey::GlobalKnownHostsFile => 36,
            FieldKey::GSSAPIAuthentication => 37,
            FieldKey::GSSAPIDelegateCredentials => 38,
            FieldKey::HashKnownHosts => 39,
            FieldKey::HostbasedAcceptedAlgorithms => 40,
            FieldKey::HostbasedAuthentication => 41,
            FieldKey::HostKeyAlgorithms => 42,
            FieldKey::HostKeyAlias => 43,
            FieldKey::Hostname => 44,
            FieldKey::IdentitiesOnly => 45,
            FieldKey::IdentityAgent => 46,
            FieldKey::IdentityFile => 47,
            FieldKey::IgnoreUnknown => 48,
            FieldKey::Include => 49,
            FieldKey::IPQoS => 50,
            FieldKey::KbdInteractiveAuthentication => 51,
            FieldKey::KbdInteractiveDevices => 52,
            FieldKey::KexAlgorithms => 53,
            FieldKey::KnownHostsCommand => 54,
            FieldKey::LocalCommand => 55,
            FieldKey::LocalForward => 56,
            FieldKey::LogLevel => 57,
            FieldKey::LogVerbose => 58,
            FieldKey::MACs => 59,
            FieldKey::NoHostAuthenticationForLocalhost => 60,
            FieldKey::NumberOfPasswordPrompts => 61,
            FieldKey::ObscureKeystrokeTiming => 62,
            FieldKey::PasswordAuthentication => 63,
            FieldKey::PermitLocalCommand => 64,
            FieldKey::PermitRemoteOpen => 65,
            FieldKey::PKCS11Provider => 66,
            FieldKey::Port => 67,
            FieldKey::PreferredAuthentications => 68,
            FieldKey::ProxyCommand => 69,
            FieldKey::ProxyJump => 70,
            FieldKey::ProxyUseFdpass => 71,
            FieldKey::PubkeyAcceptedAlgorithms => 72,
            FieldKey::PubkeyAuthentication => 73,
            FieldKey::RekeyLimit => 74,
            FieldKey::RemoteCommand => 75,
            FieldKey::RemoteForward => 76,
            FieldKey::RequestTTY => 77,
            FieldKey::RequiredRSASize => 78,
            FieldKey::RevokedHostKeys => 79,
            FieldKey::SecurityKeyProvider => 80,
            FieldKey::SendEnv => 81,
            FieldKey::ServerAliveCountMax => 82,
            FieldKey::ServerAliveInterval => 83,
            FieldKey::SessionType => 84,
            FieldKey::SetEnv => 85,
            FieldKey::StdinNull => 86,
            FieldKey::StreamLocalBindMask => 87,
            FieldKey::StreamLocalBindUnlink => 88,
            FieldKey::StrictHostKeyChecking => 89,
            FieldKey::SyslogFacility => 90,
            FieldKey::TCPKeepAlive => 91,
            FieldKey::Tag => 92,
            FieldKey::Tunnel => 93,
            FieldKey::TunnelDevice => 94,
            FieldKey::UpdateHostKeys => 95,
            FieldKey::User => 96,
            FieldKey::UserKnownHostsFile => 97,
            FieldKey::VerifyHostKeyDNS => 98,
            FieldKey::VisualHostKey => 99,
            FieldKey::XAuthLocation => 100,
            FieldKey::Other(_) => KNOWN_KEYS as int,
        }
    }

    /// The position of a keyword in the list; `KNOWN_KEYS` for another key.
    pub fn ordinal(&self) -> (r: u8)
        ensures
            r == self.spec_ordinal(),
            r == self@.ordinal,
    {
        match self {
            FieldKey::Host => 0,
            FieldKey::Match => 1,
            FieldKey::AddKeysToAgent => 2,
            FieldKey::AddressFamily => 3,
            FieldKey::BatchMode => 4,
            FieldKey::BindAddress => 5,
            FieldKey::BindInterface => 6,
            FieldKey::CanonicalDomains => 7,
            FieldKey::CanonicalizeFallbackLocal => 8,
            FieldKey::CanonicalizeHostname => 9,
            FieldKey::CanonicalizeMaxDots => 10,
            FieldKey::CanonicalizePermittedCNAMEs => 11,
            FieldKey::CASignatureAlgorithms => 12,
            FieldKey::CertificateFile => 13,
            FieldKey::ChannelTimeout => 14,
            FieldKey::CheckHostIP => 15,
            FieldKey::Ciphers => 16,
            FieldKey::ClearAllForwardings => 17,
            FieldKey::Compression => 18,
            FieldKey::ConnectionAttempts => 19,
            FieldKey::ConnectTimeout => 20,
            FieldKey::ControlMaster => 21,
            FieldKey::ControlPath => 22,
            FieldKey::ControlPersist => 23,
            FieldKey::DynamicForward => 24,
            FieldKey::EnableEscapeCommandline => 25,
            FieldKey::EnableSSHKeysign => 26,
            FieldKey::EscapeChar => 27,
            FieldKey::ExitOnForwardFailure => 28,
            FieldKey::FingerprintHash => 29,
            FieldKey::ForkAfterAuthentication => 30,
            FieldKey::ForwardAgent => 31,
            FieldKey::ForwardX11 => 32,
            FieldKey::ForwardX11Timeout => 33,
            FieldKey::ForwardX11Trusted => 34,
            FieldKey::GatewayPorts => 35,
            FieldKey::GlobalKnownHostsFile => 36,
            FieldKey::GSSAPIAuthentication => 37,
            FieldKey::GSSAPIDelegateCredentials => 38,
            FieldKey::HashKnownHosts => 39,
            FieldKey::HostbasedAcceptedAlgorithms => 40,
            FieldKey::HostbasedAuthentication => 41,
            FieldKey::HostKeyAlgorithms => 42,
            FieldKey::HostKeyAlias => 43,
            FieldKey::Hostname => 44,
            FieldKey::IdentitiesOnly => 45,
            FieldKey::IdentityAgent => 46,
            FieldKey::IdentityFile => 47,
            FieldKey::IgnoreUnknown => 48,
            FieldKey::Include => 49,
            FieldKey::IPQoS => 50,
            FieldKey::KbdInteractiveAuthentication => 51,
            FieldKey::KbdInteractiveDevices => 52,
            FieldKey::KexAlgorithms => 53,
            FieldKey::KnownHostsCommand => 54,
            FieldKey::LocalCommand => 55,
            FieldKey::LocalForward => 56,
            FieldKey::LogLevel => 57,
            FieldKey::LogVerbose => 58,
            FieldKey::MACs => 59,
            FieldKey::NoHostAuthenticationForLocalhost => 60,
            FieldKey::NumberOfPasswordPrompts => 61,
            FieldKey::ObscureKeystrokeTiming => 62,
            FieldKey::PasswordAuthentication => 63,
            FieldKey::PermitLocalCommand => 64,
            FieldKey::PermitRemoteOpen => 65,
            FieldKey::PKCS11Provider => 66,
            FieldKey::Port => 67,
            FieldKey::PreferredAuthentications => 68,
            FieldKey::ProxyCommand => 69,
            FieldKey::ProxyJump => 70,
            FieldKey::ProxyUseFdpass => 71,
            FieldKey::PubkeyAcceptedAlgorithms => 72,
            FieldKey::PubkeyAuthentication => 73,
            FieldKey::RekeyLimit => 74,
            FieldKey::RemoteCommand => 75,
            FieldKey::RemoteForward => 76,
            FieldKey::RequestTTY => 77,
            FieldKey::RequiredRSASize => 78,
            FieldKey::RevokedHostKeys => 79,
            FieldKey::SecurityKeyProvider => 80,
            FieldKey::SendEnv => 81,
            FieldKey::ServerAliveCountMax => 82,
            FieldKey::ServerAliveInterval => 83,
            FieldKey::SessionType => 84,
            FieldKey::SetEnv => 85,
            FieldKey::StdinNull => 86,
            FieldKey::StreamLocalBindMask => 87,
            FieldKey::StreamLocalBindUnlink => 88,
            FieldKey::StrictHostKeyChecking => 89,
            FieldKey::SyslogFacility => 90,
            FieldKey::TCPKeepAlive => 91,
            FieldKey::Tag => 92,
            FieldKey::Tunnel => 93,
            FieldKey::TunnelDevice => 94,
            FieldKey::UpdateHostKeys => 95,
            FieldKey::User => 96,
            FieldKey::UserKnownHostsFile => 97,
            FieldKey::VerifyHostKeyDNS => 98,
            FieldKey::VisualHostKey => 99,
            FieldKey::XAuthLocation => 100,
            FieldKey::Other(_) => KNOWN_KEYS,
        }
    }

    /// The keyword at position `i` of the list.
    pub fn from_ordinal(i: u8) -> (k: FieldKey)
        requires
            i < KNOWN_KEYS,
        ensures
            k@ == known_view(i as int),
            k.spec_ordinal() == i,
    {
        match i {
            0 => FieldKey::Host,
            1 => FieldKey::Match,
            2 => FieldKey::AddKeysToAgent,
            3 => FieldKey::AddressFamily,
            4 => FieldKey::BatchMode,
            5 => FieldKey::BindAddress,
            6 => FieldKey::BindInterface,
            7 => FieldKey::CanonicalDomains,
            8 => FieldKey::CanonicalizeFallbackLocal,
            9 => FieldKey::CanonicalizeHostname,
            10 => FieldKey::CanonicalizeMaxDots,
            11 => FieldKey::CanonicalizePermittedCNAMEs,
            12 => FieldKey::CASignatureAlgorithms,
            13 => FieldKey::CertificateFile,
            14 => FieldKey::ChannelTimeout,
            15 => FieldKey::CheckHostIP,
            16 => FieldKey::Ciphers,
            17 => FieldKey::ClearAllForwardings,
            18 => FieldKey::Compression,
            19 => FieldKey::ConnectionAttempts,
            20 => FieldKey::ConnectTimeout,
            21 => FieldKey::ControlMaster,
            22 => FieldKey::ControlPath,
            23 => FieldKey::ControlPersist,
            24 => FieldKey::DynamicForward,
            25 => FieldKey::EnableEscapeCommandline,
            26 => FieldKey::EnableSSHKeysign,
            27 => FieldKey::EscapeChar,
            28 => FieldKey::ExitOnForwardFailure,
            29 => FieldKey::FingerprintHash,
            30 => FieldKey::ForkAfterAuthentication,
            31 => FieldKey::ForwardAgent,
            32 => FieldKey::ForwardX11,
            33 => FieldKey::ForwardX11Timeout,
            34 => FieldKey::ForwardX11Trusted,
            35 => FieldKey::GatewayPorts,
            36 => FieldKey::GlobalKnownHostsFile,
            37 => FieldKey::GSSAPIAuthentication,
            38 => FieldKey::GSSAPIDelegateCredentials,
            39 => FieldKey::HashKnownHosts,
            40 => FieldKey::HostbasedAcceptedAlgorithms,
            41 => FieldKey::HostbasedAuthentication,
            42 => FieldKey::HostKeyAlgorithms,
            43 => FieldKey::HostKeyAlias,
            44 => FieldKey::Hostname,
            45 => FieldKey::IdentitiesOnly,
            46 => FieldKey::IdentityAgent,
            47 => FieldKey::IdentityFile,
            48 => FieldKey::IgnoreUnknown,
            49 => FieldKey::Include,
            50 => FieldKey::IPQoS,
            51 => FieldKey::KbdInteractiveAuthentication,
            52 => FieldKey::KbdInteractiveDevices,
            53 => FieldKey::KexAlgorithms,
            54 => FieldKey::KnownHostsCommand,
            55 => FieldKey::LocalCommand,
            56 => FieldKey::LocalForward,
            57 => FieldKey::LogLevel,
            58 => FieldKey::LogVerbose,
            59 => FieldKey::MACs,
            60 => FieldKey::NoHostAuthenticationForLocalhost,
            61 => FieldKey::NumberOfPasswordPrompts,
            62 => FieldKey::ObscureKeystrokeTiming,
            63 => FieldKey::PasswordAuthentication,
            64 => FieldKey::PermitLocalCommand,
            65 => FieldKey::PermitRemoteOpen,
            66 => FieldKey::PKCS11Provider,
            67 => FieldKey::Port,
            68 => FieldKey::PreferredAuthentications,
            69 => FieldKey::ProxyCommand,
            70 => FieldKey::ProxyJump,
            71 => FieldKey::ProxyUseFdpass,
            72 => FieldKey::PubkeyAcceptedAlgorithms,
            73 => FieldKey::PubkeyAuthentication,
            74 => FieldKey::RekeyLimit,
            75 => FieldKey::RemoteCommand,
            76 => FieldKey::RemoteForward,
            77 => FieldKey::RequestTTY,
            78 => FieldKey::RequiredRSASize,
            79 => FieldKey::RevokedHostKeys,
            80 => FieldKey::SecurityKeyProvider,
            81 => FieldKey::SendEnv,
            82 => FieldKey::ServerAliveCountMax,
            83 => FieldKey::ServerAliveInterval,
            84 => FieldKey::SessionType,
            85 => FieldKey::SetEnv,
            86 => FieldKey::StdinNull,
            87 => FieldKey::StreamLocalBindMask,
            88 => FieldKey::StreamLocalBindUnlink,
            89 => FieldKey::StrictHostKeyChecking,
            90 => FieldKey::SyslogFacility,
            91 => FieldKey::TCPKeepAlive,
            92 => FieldKey::Tag,
            93 => FieldKey::Tunnel,
            94 => FieldKey::TunnelDevice,
            95 => FieldKey::UpdateHostKeys,
            96 => FieldKey::User,
            97 => FieldKey::UserKnownHostsFile,
            98 => FieldKey::VerifyHostKeyDNS,
            99 => FieldKey::VisualHostKey,
            100 => FieldKey::XAuthLocation,
            _ => FieldKey::Host,
        }
    }

    /// Parses `s` as a key, ignoring ASCII case for keywords. Any other text
    /// becomes [`FieldKey::Other`], kept as it is.
    pub fn parse(s: &str) -> (k: FieldKey)
        ensures
            k@ == parse_key(s@),
    {
        let v = chars_of(s);
        let mut i: u8 = 0;
        while i < KNOWN_KEYS
            invariant
                i <= KNOWN_KEYS,
                v@ == s@,
                find_known(ascii_lower(s@), 0) == find_known(ascii_lower(s@), i as nat),
            decreases KNOWN_KEYS - i,
        {
            let k = FieldKey::from_ordinal(i);
            let name = chars_of(k.as_canonical_str());
            if seq_eq_ignore_ascii_case(&v, &name) {
                return k;
            }
            i = i + 1;
        }
        FieldKey::Other(string_from(s))
    }

    /// Whether this directive accumulates across matching keys (each
    /// occurrence is appended) rather than following first-match-wins.
    ///
    /// Derived from the `dump_cfg_strarray` and `dump_cfg_forwards` handling
    /// in OpenSSH's readconf.c
    pub fn is_cumulative(&self) -> (b: bool)
        ensures
            b == key_is_cumulative(self@),
    {
        matches!(
            self,
            FieldKey::IdentityFile
                | FieldKey::CertificateFile
                | FieldKey::SendEnv
                | FieldKey::SetEnv
                | FieldKey::LocalForward
                | FieldKey::RemoteForward
                | FieldKey::DynamicForward
        )
    }

    /// Whether this keyword is a selector rather than a setting.
    pub fn is_selector(&self) -> (b: bool)
        ensures
            b == key_is_selector(self@),
    {
        matches!(self, FieldKey::Host | FieldKey::Match)
    }

    /// Which selector this keyword is, if it is one.
    pub fn as_selector_kind(&self) -> (r: Option<SelectorKind>)
        ensures
            r is Some <==> key_is_selector(self@),
            r == Some(SelectorKind::Host) <==> self@.ordinal == 0,
    {
        match self {
            FieldKey::Host => Some(SelectorKind::Host),
            FieldKey::Match => Some(SelectorKind::Match),
            _ => None,
        }
    }

    /// The canonical spelling of the keyword (as documented in ssh_config(5)),
    /// or the text of another key.
    pub fn as_canonical_str(&self) -> (s: &str)
        ensures
            s@ == key_name(self@),
    {
        match self {
            FieldKey::Host => {
                proof {
                    reveal_strlit("Host");
                }
                "Host"
            },
            FieldKey::Match => {
                proof {
                    reveal_strlit("Match");
                }
                "Match"
            },
            FieldKey::AddKeysToAgent => {
                proof {
                    reveal_strlit("AddKeysToAgent");
                }
                "AddKeysToAgent"
            },
            FieldKey::AddressFamily => {
                proof {
                    reveal_strlit("AddressFamily");
                }
                "AddressFamily"
            },
            FieldKey::BatchMode => {
                proof {
                    reveal_strlit("BatchMode");
                }
                "BatchMode"
            },
            FieldKey::BindAddress => {
                proof {
                    reveal_strlit("BindAddress");
                }
                "BindAddress"
            },
            FieldKey::BindInterface => {
                proof {
                    reveal_strlit("BindInterface");
                }
                "BindInterface"
            },
            FieldKey::CanonicalDomains => {
                proof {
                    reveal_strlit("CanonicalDomains");
                }
                "CanonicalDomains"
            },
            FieldKey::CanonicalizeFallbackLocal => {
                proof {
                    reveal_strlit("CanonicalizeFallbackLocal");
                }
                "CanonicalizeFallbackLocal"
            },
            FieldKey::CanonicalizeHostname => {
                proof {
                    reveal_strlit("CanonicalizeHostname");
                }
                "CanonicalizeHostname"
            },
            FieldKey::CanonicalizeMaxDots => {
                proof {
                    reveal_strlit("CanonicalizeMaxDots");
                }
                "CanonicalizeMaxDots"
            },
            FieldKey::CanonicalizePermittedCNAMEs => {
                proof {
                    reveal_strlit("CanonicalizePermittedCNAMEs");
                }
                "CanonicalizePermittedCNAMEs"
            },
            FieldKey::CASignatureAlgorithms => {
                proof {
                    reveal_strlit("CASignatureAlgorithms");
                }
                "CASignatureAlgorithms"
            },
            FieldKey::CertificateFile => {
                proof {
                    reveal_strlit("CertificateFile");
                }
                "CertificateFile"
            },
            FieldKey::ChannelTimeout => {
                proof {
                    reveal_strlit("ChannelTimeout");
                }
                "ChannelTimeout"
            },
            FieldKey::CheckHostIP => {
                proof {
                    reveal_strlit("CheckHostIP");
                }
                "CheckHostIP"
            },
            FieldKey::Ciphers => {
                proof {
                    reveal_strlit("Ciphers");
                }
                "Ciphers"
            },
            FieldKey::ClearAllForwardings => {
                proof {
                    reveal_strlit("ClearAllForwardings");
                }
                "ClearAllForwardings"
            },
            FieldKey::Compression => {
                proof {
                    reveal_strlit("Compression");
                }
                "Compression"
            },
            FieldKey::ConnectionAttempts => {
                proof {
                    reveal_strlit("ConnectionAttempts");
                }
                "ConnectionAttempts"
            },
            FieldKey::ConnectTimeout => {
                proof {
                    reveal_strlit("ConnectTimeout");
                }
                "ConnectTimeout"
            },
            FieldKey::ControlMaster => {
                proof {
                    reveal_strlit("ControlMaster");
                }
                "ControlMaster"
            },
            FieldKey::ControlPath => {
                proof {
                    reveal_strlit("ControlPath");
                }
                "ControlPath"
            },
            FieldKey::ControlPersist => {
                proof {
                    reveal_strlit("ControlPersist");
                }
                "ControlPersist"
            },
            FieldKey::DynamicForward => {
                proof {
                    reveal_strlit("DynamicForward");
                }
                "DynamicForward"
            },
            FieldKey::EnableEscapeCommandline => {
                proof {
                    reveal_strlit("EnableEscapeCommandline");
                }
                "EnableEscapeCommandline"
            },
            FieldKey::EnableSSHKeysign => {
                proof {
                    reveal_strlit("EnableSSHKeysign");
                }
                "EnableSSHKeysign"
            },
            FieldKey::EscapeChar => {
                proof {
                    reveal_strlit("EscapeChar");
                }
                "EscapeChar"
            },
            FieldKey::ExitOnForwardFailure => {
                proof {
                    reveal_strlit("ExitOnForwardFailure");
                }
                "ExitOnForwardFailure"
            },
            FieldKey::FingerprintHash => {
                proof {
                    reveal_strlit("FingerprintHash");
                }
                "FingerprintHash"
            },
            FieldKey::ForkAfterAuthentication => {
                proof {
                    reveal_strlit("ForkAfterAuthentication");
                }
                "ForkAfterAuthentication"
            },
            FieldKey::ForwardAgent => {
                proof {
                    reveal_strlit("ForwardAgent");
                }
                "ForwardAgent"
            },
            FieldKey::ForwardX11 => {
                proof {
                    reveal_strlit("ForwardX11");
                }
                "ForwardX11"
            },
            FieldKey::ForwardX11Timeout => {
                proof {
                    reveal_strlit("ForwardX11Timeout");
                }
                "ForwardX11Timeout"
            },
            FieldKey::ForwardX11Trusted => {
                proof {
                    reveal_strlit("ForwardX11Trusted");
                }
                "ForwardX11Trusted"
            },
            FieldKey::GatewayPorts => {
                proof {
                    reveal_strlit("GatewayPorts");
                }
                "GatewayPorts"
            },
            FieldKey::GlobalKnownHostsFile => {
                proof {
                    reveal_strlit("GlobalKnownHostsFile");
                }
                "GlobalKnownHostsFile"
            },
            FieldKey::GSSAPIAuthentication => {
                proof {
                    reveal_strlit("GSSAPIAuthentication");
                }
                "GSSAPIAuthentication"
            },
            FieldKey::GSSAPIDelegateCredentials => {
                proof {
                    reveal_strlit("GSSAPIDelegateCredentials");
                }
                "GSSAPIDelegateCredentials"
            },
            FieldKey::HashKnownHosts => {
                proof {
                    reveal_strlit("HashKnownHosts");
                }
                "HashKnownHosts"
            },
            FieldKey::HostbasedAcceptedAlgorithms => {
                proof {
                    reveal_strlit("HostbasedAcceptedAlgorithms");
                }
                "HostbasedAcceptedAlgorithms"
            },
            FieldKey::HostbasedAuthentication => {
                proof {
                    reveal_strlit("HostbasedAuthentication");
                }
                "HostbasedAuthentication"
            },
            FieldKey::HostKeyAlgorithms => {
                proof {
                    reveal_strlit("HostKeyAlgorithms");
                }
                "HostKeyAlgorithms"
            },
            FieldKey::HostKeyAlias => {
                proof {
                    reveal_strlit("HostKeyAlias");
                }
                "HostKeyAlias"
            },
            FieldKey::Hostname => {
                proof {
                    reveal_strlit("Hostname");
                }
                "Hostname"
            },
            FieldKey::IdentitiesOnly => {
                proof {
                    reveal_strlit("IdentitiesOnly");
                }
                "IdentitiesOnly"
            },
            FieldKey::IdentityAgent => {
                proof {
                    reveal_strlit("IdentityAgent");
                }
                "IdentityAgent"
            },
            FieldKey::IdentityFile => {
                proof {
                    reveal_strlit("IdentityFile");
                }
                "IdentityFile"
            },
            FieldKey::IgnoreUnknown => {
                proof {
                    reveal_strlit("IgnoreUnknown");
                }
                "IgnoreUnknown"
            },
            FieldKey::Include => {
                proof {
                    reveal_strlit("Include");
                }
                "Include"
            },
            FieldKey::IPQoS => {
                proof {
                    reveal_strlit("IPQoS");
                }
                "IPQoS"
            },
            FieldKey::KbdInteractiveAuthentication => {
                proof {
                    reveal_strlit("KbdInteractiveAuthentication");
                }
                "KbdInteractiveAuthentication"
            },
            FieldKey::KbdInteractiveDevices => {
                proof {
                    reveal_strlit("KbdInteractiveDevices");
                }
                "KbdInteractiveDevices"
            },
            FieldKey::KexAlgorithms => {
                proof {
                    reveal_strlit("KexAlgorithms");
                }
                "KexAlgorithms"
            },
            FieldKey::KnownHostsCommand => {
                proof {
                    reveal_strlit("KnownHostsCommand");
                }
                "KnownHostsCommand"
            },
            FieldKey::LocalCommand => {
                proof {
                    reveal_strlit("LocalCommand");
                }
                "LocalCommand"
            },
            FieldKey::LocalForward => {
                proof {
                    reveal_strlit("LocalForward");
                }
                "LocalForward"
            },
            FieldKey::LogLevel => {
                proof {
                    reveal_strlit("LogLevel");
                }
                "LogLevel"
            },
            FieldKey::LogVerbose => {
                proof {
                    reveal_strlit("LogVerbose");
                }
                "LogVerbose"
            },
            FieldKey::MACs => {
                proof {
                    reveal_strlit("MACs");
                }
                "MACs"
            },
            FieldKey::NoHostAuthenticationForLocalhost => {
                proof {
                    reveal_strlit("NoHostAuthenticationForLocalhost");
                }
                "NoHostAuthenticationForLocalhost"
            },
            FieldKey::NumberOfPasswordPrompts => {
                proof {
                    reveal_strlit("NumberOfPasswordPrompts");
                }
                "NumberOfPasswordPrompts"
            },
            FieldKey::ObscureKeystrokeTiming => {
                proof {
                    reveal_strlit("ObscureKeystrokeTiming");
                }
                "ObscureKeystrokeTiming"
            },
            FieldKey::PasswordAuthentication => {
                proof {
                    reveal_strlit("PasswordAuthentication");
                }
                "PasswordAuthentication"
            },
            FieldKey::PermitLocalCommand => {
                proof {
                    reveal_strlit("PermitLocalCommand");
                }
                "PermitLocalCommand"
            },
            FieldKey::PermitRemoteOpen => {
                proof {
                    reveal_strlit("PermitRemoteOpen");
                }
                "PermitRemoteOpen"
            },
            FieldKey::PKCS11Provider => {
                proof {
                    reveal_strlit("PKCS11Provider");
                }
                "PKCS11Provider"
            },
            FieldKey::Port => {
                proof {
                    reveal_strlit("Port");
                }
                "Port"
            },
            FieldKey::PreferredAuthentications => {
                proof {
                    reveal_strlit("PreferredAuthentications");
                }
                "PreferredAuthentications"
            },
            FieldKey::ProxyCommand => {
                proof {
                    reveal_strlit("ProxyCommand");
                }
                "ProxyCommand"
            },
            FieldKey::ProxyJump => {
                proof {
                    reveal_strlit("ProxyJump");
                }
                "ProxyJump"
            },
            FieldKey::ProxyUseFdpass => {
                proof {
                    reveal_strlit("ProxyUseFdpass");
                }
                "ProxyUseFdpass"
            },
            FieldKey::PubkeyAcceptedAlgorithms => {
                proof {
                    reveal_strlit("PubkeyAcceptedAlgorithms");
                }
                "PubkeyAcceptedAlgorithms"
            },
            FieldKey::PubkeyAuthentication => {
                proof {
                    reveal_strlit("PubkeyAuthentication");
                }
                "PubkeyAuthentication"
            },
            FieldKey::RekeyLimit => {
                proof {
                    reveal_strlit("RekeyLimit");
                }
                "RekeyLimit"
            },
            FieldKey::RemoteCommand => {
                proof {
                    reveal_strlit("RemoteCommand");
                }
                "RemoteCommand"
            },
            FieldKey::RemoteForward => {
                proof {
                    reveal_strlit("RemoteForward");
                }
                "RemoteForward"
            },
            FieldKey::RequestTTY => {
                proof {
                    reveal_strlit("RequestTTY");
                }
                "RequestTTY"
            },
            FieldKey::RequiredRSASize => {
                proof {
                    reveal_strlit("RequiredRSASize");
                }
                "RequiredRSASize"
            },
            FieldKey::RevokedHostKeys => {
                proof {
                    reveal_strlit("RevokedHostKeys");
                }
                "RevokedHostKeys"
            },
            FieldKey::SecurityKeyProvider => {
                proof {
                    reveal_strlit("SecurityKeyProvider");
                }
                "SecurityKeyProvider"
            },
            FieldKey::SendEnv => {
                proof {
                    reveal_strlit("SendEnv");
                }
                "SendEnv"
            },
            FieldKey::ServerAliveCountMax => {
                proof {
                    reveal_strlit("ServerAliveCountMax");
                }
                "ServerAliveCountMax"
            },
            FieldKey::ServerAliveInterval => {
                proof {
                    reveal_strlit("ServerAliveInterval");
                }
                "ServerAliveInterval"
            },
            FieldKey::SessionType => {
                proof {
                    reveal_strlit("SessionType");
                }
                "SessionType"
            },
            FieldKey::SetEnv => {
                proof {
                    reveal_strlit("SetEnv");
                }
                "SetEnv"
            },
            FieldKey::StdinNull => {
                proof {
                    reveal_strlit("StdinNull");
                }
                "StdinNull"
            },
            FieldKey::StreamLocalBindMask => {
                proof {
                    reveal_strlit("StreamLocalBindMask");
                }
                "StreamLocalBindMask"
            },
            FieldKey::StreamLocalBindUnlink => {
                proof {
                    reveal_strlit("StreamLocalBindUnlink");
                }
                "StreamLocalBindUnlink"
            },
            FieldKey::StrictHostKeyChecking => {
                proof {
                    reveal_strlit("StrictHostKeyChecking");
                }
                "StrictHostKeyChecking"
            },
            FieldKey::SyslogFacility => {
                proof {
                    reveal_strlit("SyslogFacility");
                }
                "SyslogFacility"
            },
            FieldKey::TCPKeepAlive => {
                proof {
                    reveal_strlit("TCPKeepAlive");
                }
                "TCPKeepAlive"
            },
            FieldKey::Tag => {
                proof {
                    reveal_strlit("Tag");
                }
                "Tag"
            },
            FieldKey::Tunnel => {
                proof {
                    reveal_strlit("Tunnel");
                }
                "Tunnel"
            },
            FieldKey::TunnelDevice => {
                proof {
                    reveal_strlit("TunnelDevice");
                }
                "TunnelDevice"
            },
            FieldKey::UpdateHostKeys => {
                proof {
                    reveal_strlit("UpdateHostKeys");
                }
                "UpdateHostKeys"
            },
            FieldKey::User => {
                proof {
                    reveal_strlit("User");
                }
                "User"
            },
            FieldKey::UserKnownHostsFile => {
                proof {
                    reveal_strlit("UserKnownHostsFile");
                }
                "UserKnownHostsFile"
            },
            FieldKey::VerifyHostKeyDNS => {
                proof {
                    reveal_strlit("VerifyHostKeyDNS");
                }
                "VerifyHostKeyDNS"
            },
            FieldKey::VisualHostKey => {
                proof {
                    reveal_strlit("VisualHostKey");
                }
                "VisualHostKey"
            },
            FieldKey::XAuthLocation => {
                proof {
                    reveal_strlit("XAuthLocation");
                }
                "XAuthLocation"
            },
            FieldKey::Other(s) => s.as_str(),
        }
    }

    /// The key's text, as [`Self::as_canonical_str`].
    pub fn to_string(&self) -> (s: String)
        ensures
            s@ == key_name(self@),
    {
        string_from(self.as_canonical_str())
    }

    /// Another value of the same key.
    pub fn duplicate(&self) -> (k: FieldKey)
        ensures
            k@ == self@,
    {
        match self {
            FieldKey::Other(s) => FieldKey::Other(s.clone()),
            _ => FieldKey::from_ordinal(self.ordinal()),
        }
    }

    /// Whether two keys are the same key.
    pub fn same_key(&self, other: &FieldKey) -> (b: bool)
        ensures
            b == (self@ == other@),
    {
        match (self, other) {
            (FieldKey::Other(a), FieldKey::Other(b)) => str_eq(a.as_str(), b.as_str()),
            (FieldKey::Other(_), _) => false,
            (_, FieldKey::Other(_)) => false,
            _ => self.ordinal() == other.ordinal(),
        }
    }
}

impl PartialEq for FieldKey {
    fn eq(&self, other: &FieldKey) -> (b: bool) {
        self.same_key(other)
    }
}

impl vstd::std_specs::cmp::PartialEqSpecImpl for FieldKey {
    open spec fn obeys_eq_spec() -> bool {
        true
    }

    open spec fn eq_spec(&self, other: &FieldKey) -> bool {
        self@ == other@
    }
}

impl Eq for FieldKey {

}

impl std::str::FromStr for FieldKey {
    type Err = core::convert::Infallible;

    fn from_str(s: &str) -> (r: core::result::Result<FieldKey, core::convert::Infallible>)
        ensures
            r matches Ok(k) && k@ == parse_key(s@),
    {
        Ok(FieldKey::parse(s))
    }
}

/// The length of the canonical spelling of the `i`-th keyword.
pub open spec fn name_len(i: int) -> nat {
    if i == 0 {
        4
    } else if i == 1 {
        5
    } else if i == 2 {
        14
    } else if i == 3 {
        13
    } else if i == 4 {
        9
    } else if i == 5 {
        11
    } else if i == 6 {
        13
    } else if i == 7 {
        16
    } else if i == 8 {
        25
    } else if i == 9 {
        20
    } else if i == 10 {
        19
    } else if i == 11 {
        27
    } else if i == 12 {
        21
    } else if i == 13 {
        15
    } else if i == 14 {
        14
    } else if i == 15 {
        11
    } else if i == 16 {
        7
    } else if i == 17 {
        19
    } else if i == 18 {
        11
    } else if i == 19 {
        18
    } else if i == 20 {
        14
    } else if i == 21 {
        13
    } else if i == 22 {
        11
    } else if i == 23 {
        14
    } else if i == 24 {
        14
    } else if i == 25 {
        23
    } else if i == 26 {
        16
    } else if i == 27 {
        10
    } else if i == 28 {
        20
    } else if i == 29 {
        15
    } else if i == 30 {
        23
    } else if i == 31 {
        12
    } else if i == 32 {
        10
    } else if i == 33 {
        17
    } else if i == 34 {
        17
    } else if i == 35 {
        12
    } else if i == 36 {
        20
    } else if i == 37 {
        20
    } else if i == 38 {
        25
    } else if i == 39 {
        14
    } else if i == 40 {
        27
    } else if i == 41 {
        23
    } else if i == 42 {
        17
    } else if i == 43 {
        12
    } else if i == 44 {
        8
    } else if i == 45 {
        14
    } else if i == 46 {
        13
    } else if i == 47 {
        12
    } else if i == 48 {
        13
    } else if i == 49 {
        7
    } else if i == 50 {
        5
    } else if i == 51 {
        28
    } else if i == 52 {
        21
    } else if i == 53 {
        13
    } else if i == 54 {
        17
    } else if i == 55 {
        12
    } else if i == 56 {
        12
    } else if i == 57 {
        8
    } else if i == 58 {
        10
    } else if i == 59 {
        4
    } else if i == 60 {
        32
    } else if i == 61 {
        23
    } else if i == 62 {
        22
    } else if i == 63 {
        22
    } else if i == 64 {
        18
    } else if i == 65 {
        16
    } else if i == 66 {
        14
    } else if i == 67 {
        4
    } else if i == 68 {
        24
    } else if i == 69 {
        12
    } else if i == 70 {
        9
    } else if i == 71 {
        14
    } else if i == 72 {
        24
    } else if i == 73 {
        20
    } else if i == 74 {
        10
    } else if i == 75 {
        13
    } else if i == 76 {
        13
    } else if i == 77 {
        10
    } else if i == 78 {
        15
    } else if i == 79 {
        15
    } else if i == 80 {
        19
    } else if i == 81 {
        7
    } else if i == 82 {
        19
    } else if i == 83 {
        19
    } else if i == 84 {
        11
    } else if i == 85 {
        6
    } else if i == 86 {
        9
    } else if i == 87 {
        19
    } else if i == 88 {
        21
    } else if i == 89 {
        21
    } else if i == 90 {
        14
    } else if i == 91 {
        12
    } else if i == 92 {
        3
    } else if i == 93 {
        6
    } else if i == 94 {
        12
    } else if i == 95 {
        14
    } else if i == 96 {
        4
    } else if i == 97 {
        18
    } else if i == 98 {
        16
    } else if i == 99 {
        13
    } else if i == 100 {
        13
    } else {
        0
    }
}

/// The lengths of the keywords from 0 to 25.
proof fn lemma_name_lens_0()
    ensures
        forall|i: int| 0 <= i < 26 ==> #[trigger] known_name(i).len() == name_len(i),
{
    assert forall|i: int| 0 <= i < 26 implies #[trigger] known_name(i).len() == name_len(i) by {
        if i == 0 {
            assert(known_name(0).len() == 4);
        } else if i == 1 {
            assert(known_name(1).len() == 5);
        } else if i == 2 {
            assert(known_name(2).len() == 14);
        } else if i == 3 {
            assert(known_name(3).len() == 13);
        } else if i == 4 {
            assert(known_name(4).len() == 9);
        } else if i == 5 {
            assert(known_name(5).len() == 11);
        } else if i == 6 {
            assert(known_name(6).len() == 13);
        } else if i == 7 {
            assert(known_name(7).len() == 16);
        } else if i == 8 {
            assert(known_name(8).len() == 25);
        } else if i == 9 {
            assert(known_name(9).len() == 20);
        } else if i == 10 {
            assert(known_name(10).len() == 19);
        } else if i == 11 {
            assert(known_name(11).len() == 27);
        } else if i == 12 {
            assert(known_name(12).len() == 21);
        } else if i == 13 {
            assert(known_name(13).len() == 15);
        } else if i == 14 {
            assert(known_name(14).len() == 14);
        } else if i == 15 {
            assert(known_name(15).len() == 11);
        } else if i == 16 {
            assert(known_name(16).len() == 7);
        } else if i == 17 {
            assert(known_name(17).len() == 19);
        } else if i == 18 {
            assert(known_name(18).len() == 11);
        } else if i == 19 {
            assert(known_name(19).len() == 18);
        } else if i == 20 {
            assert(known_name(20).len() == 14);
        } else if i == 21 {
            assert(known_name(21).len() == 13);
        } else if i == 22 {
            assert(known_name(22).len() == 11);
        } else if i == 23 {
            assert(known_name(23).len() == 14);
        } else if i == 24 {
            assert(known_name(24).len() == 14);
        } else if i == 25 {
            assert(known_name(25).len() == 23);
        }
    }
}

/// The lengths of the keywords from 26 to 50.
proof fn lemma_name_lens_26()
    ensures
        forall|i: int| 26 <= i < 51 ==> #[trigger] known_name(i).len() == name_len(i),
{
    assert forall|i: int| 26 <= i < 51 implies #[trigger] known_name(i).len() == name_len(i) by {
        if i == 26 {
            assert(known_name(26).len() == 16);
        } else if i == 27 {
            assert(known_name(27).len() == 10);
        } else if i == 28 {
            assert(known_name(28).len() == 20);
        } else if i == 29 {
            assert(known_name(29).len() == 15);
        } else if i == 30 {
            assert(known_name(30).len() == 23);
        } else if i == 31 {
            assert(known_name(31).len() == 12);
        } else if i == 32 {
            assert(known_name(32).len() == 10);
        } else if i == 33 {
            assert(known_name(33).len() == 17);
        } else if i == 34 {
            assert(known_name(34).len() == 17);
        } else if i == 35 {
            assert(known_name(35).len() == 12);
        } else if i == 36 {
            assert(known_name(36).len() == 20);
        } else if i == 37 {
            assert(known_name(37).len() == 20);
        } else if i == 38 {
            assert(known_name(38).len() == 25);
        } else if i == 39 {
            assert(known_name(39).len() == 14);
        } else if i == 40 {
            assert(known_name(40).len() == 27);
        } else if i == 41 {
            assert(known_name(41).len() == 23);
        } else if i == 42 {
            assert(known_name(42).len() == 17);
        } else if i == 43 {
            assert(known_name(43).len() == 12);
        } else if i == 44 {
            assert(known_name(44).len() == 8);
        } else if i == 45 {
            assert(known_name(45).len() == 14);
        } else if i == 46 {
            assert(known_name(46).len() == 13);
        } else if i == 47 {
            assert(known_name(47).len() == 12);
        } else if i == 48 {
            assert(known_name(48).len() == 13);
        } else if i == 49 {
            assert(known_name(49).len() == 7);
        } else if i == 50 {
            assert(known_name(50).len() == 5);
        }
    }
}

/// The lengths of the keywords from 51 to 75.
proof fn lemma_name_lens_51()
    ensures
        forall|i: int| 51 <= i < 76 ==> #[trigger] known_name(i).len() == name_len(i),
{
    assert forall|i: int| 51 <= i < 76 implies #[trigger] known_name(i).len() == name_len(i) by {
        if i == 51 {
            assert(known_name(51).len() == 28);
        } else if i == 52 {
            assert(known_name(52).len() == 21);
        } else if i == 53 {
            assert(known_name(53).len() == 13);
        } else if i == 54 {
            assert(known_name(54).len() == 17);
        } else if i == 55 {
            assert(known_name(55).len() == 12);
        } else if i == 56 {
            assert(known_name(56).len() == 12);
        } else if i == 57 {
            assert(known_name(57).len() == 8);
        } else if i == 58 {
            assert(known_name(58).len() == 10);
        } else if i == 59 {
            assert(known_name(59).len() == 4);
        } else if i == 60 {
            assert(known_name(60).len() == 32);
        } else if i == 61 {
            assert(known_name(61).len() == 23);
        } else if i == 62 {
            assert(known_name(62).len() == 22);
        } else if i == 63 {
            assert(known_name(63).len() == 22);
        } else if i == 64 {
            assert(known_name(64).len() == 18);
        } else if i == 65 {
            assert(known_name(65).len() == 16);
        } else if i == 66 {
            assert(known_name(66).len() == 14);
        } else if i == 67 {
            assert(known_name(67).len() == 4);
        } else if i == 68 {
            assert(known_name(68).len() == 24);
        } else if i == 69 {
            assert(known_name(69).len() == 12);
        } else if i == 70 {
            assert(known_name(70).len() == 9);
        } else if i == 71 {
            assert(known_name(71).len() == 14);
        } else if i == 72 {
            assert(known_name(72).len() == 24);
        } else if i == 73 {
            assert(known_name(73).len() == 20);
        } else if i == 74 {
            assert(known_name(74).len() == 10);
        } else if i == 75 {
            assert(known_name(75).len() == 13);
        }
    }
}

/// The lengths of the keywords from 76 to 100.
proof fn lemma_name_lens_76()
    ensures
        forall|i: int| 76 <= i < 101 ==> #[trigger] known_name(i).len() == name_len(i),
{
    assert forall|i: int| 76 <= i < 101 implies #[trigger] known_name(i).len() == name_len(i) by {
        if i == 76 {
            assert(known_name(76).len() == 13);
        } else if i == 77 {
            assert(known_name(77).len() == 10);
        } else if i == 78 {
            assert(known_name(78).len() == 15);
        } else if i == 79 {
            assert(known_name(79).len() == 15);
        } else if i == 80 {
            assert(known_name(80).len() == 19);
        } else if i == 81 {
            assert(known_name(81).len() == 7);
        } else if i == 82 {
            assert(known_name(82).len() == 19);
        } else if i == 83 {
            assert(known_name(83).len() == 19);
        } else if i == 84 {
            assert(known_name(84).len() == 11);
        } else if i == 85 {
            assert(known_name(85).len() == 6);
        } else if i == 86 {
            assert(known_name(86).len() == 9);
        } else if i == 87 {
            assert(known_name(87).len() == 19);
        } else if i == 88 {
            assert(known_name(88).len() == 21);
        } else if i == 89 {
            assert(known_name(89).len() == 21);
        } else if i == 90 {
            assert(known_name(90).len() == 14);
        } else if i == 91 {
            assert(known_name(91).len() == 12);
        } else if i == 92 {
            assert(known_name(92).len() == 3);
        } else if i == 93 {
            assert(known_name(93).len() == 6);
        } else if i == 94 {
            assert(known_name(94).len() == 12);
        } else if i == 95 {
            assert(known_name(95).len() == 14);
        } else if i == 96 {
            assert(known_name(96).len() == 4);
        } else if i == 97 {
            assert(known_name(97).len() == 18);
        } else if i == 98 {
            assert(known_name(98).len() == 16);
        } else if i == 99 {
            assert(known_name(99).len() == 13);
        } else if i == 100 {
            assert(known_name(100).len() == 13);
        }
    }
}

/// Every keyword's spelling has the length [`name_len`] gives.
proof fn lemma_name_lens()
    ensures
        forall|i: int| 0 <= i < KNOWN_KEYS ==> #[trigger] known_name(i).len() == name_len(i),
{
    lemma_name_lens_0();
    lemma_name_lens_26();
    lemma_name_lens_51();
    lemma_name_lens_76();
}

/// The keywords of length 4 differ once lower-cased.
proof fn lemma_names_differ_4()
    ensures
        forall|i: int, j: int| 0 <= j < i < KNOWN_KEYS && name_len(i) == 4 && name_len(j) == 4 ==> ascii_lower(#[trigger] known_name(j)) != ascii_lower(#[trigger] known_name(i)),
{
    assert(known_name(0) == seq!['H', 'o', 's', 't']);
    assert(known_name(59) == seq!['M', 'A', 'C', 's']);
    assert(known_name(67) == seq!['P', 'o', 'r', 't']);
    assert(known_name(96) == seq!['U', 's', 'e', 'r']);
    assert(ascii_lower(known_name(0))[0] != ascii_lower(known_name(59))[0]);
    assert(ascii_lower(known_name(0))[0] != ascii_lower(known_name(67))[0]);
    assert(ascii_lower(known_name(59))[0] != ascii_lower(known_name(67))[0]);
    assert(ascii_lower(known_name(0))[0] != ascii_lower(known_name(96))[0]);
    assert(ascii_lower(known_name(59))[0] != ascii_lower(known_name(96))[0]);
    assert(ascii_lower(known_name(67))[0] != ascii_lower(known_name(96))[0]);
}

/// The keywords of length 5 differ once lower-cased.
proof fn lemma_names_differ_5()
    ensures
        forall|i: int, j: int| 0 <= j < i < KNOWN_KEYS && name_len(i) == 5 && name_len(j) == 5 ==> ascii_lower(#[trigger] known_name(j)) != ascii_lower(#[trigger] known_name(i)),
{
    assert(known_name(1) == seq!['M', 'a', 't', 'c', 'h']);
    assert(known_name(50) == seq!['I', 'P', 'Q', 'o', 'S']);
    assert(ascii_lower(known_name(1))[0] != ascii_lower(known_name(50))[0]);
}

/// The keywords of length 6 differ once lower-cased.
proof fn lemma_names_differ_6()
    ensures
        forall|i: int, j: int| 0 <= j < i < KNOWN_KEYS && name_len(i) == 6 && name_len(j) == 6 ==> ascii_lower(#[trigger] known_name(j)) != ascii_lower(#[trigger] known_name(i)),
{
    assert(known_name(85) == seq!['S', 'e', 't', 'E', 'n', 'v']);
    assert(known_name(93) == seq!['T', 'u', 'n', 'n', 'e', 'l']);
    assert(ascii_lower(known_name(85))[0] != ascii_lower(known_name(93))[0]);
}

/// The keywords of length 7 differ once lower-cased.
proof fn lemma_names_differ_7()
    ensures
        forall|i: int, j: int| 0 <= j < i < KNOWN_KEYS && name_len(i) == 7 && name_len(j) == 7 ==> ascii_lower(#[trigger] known_name(j)) != ascii_lower(#[trigger] known_name(i)),
{
    assert(known_name(16) == seq!['C', 'i', 'p', 'h', 'e', 'r', 's']);
    assert(known_name(49) == seq!['I', 'n', 'c', 'l', 'u', 'd', 'e']);
    assert(known_name(81) == seq!['S', 'e', 'n', 'd', 'E', 'n', 'v']);
    assert(ascii_lower(known_name(16))[0] != ascii_lower(known_name(49))[0]);
    assert(ascii_lower(known_name(16))[0] != ascii_lower(known_name(81))[0]);
    assert(ascii_lower(known_name(49))[0] != ascii_lower(known_name(81))[0]);
}

/// The keywords of length 8 differ once lower-cased.
proof fn lemma_names_differ_8()
    ensures
        forall|i: int, j: int| 0 <= j < i < KNOWN_KEYS && name_len(i) == 8 && name_len(j) == 8 ==> ascii_lower(#[trigger] known_name(j)) != ascii_lower(#[trigger] known_name(i)),
{
    assert(known_name(44) == seq!['H', 'o', 's', 't', 'n', 'a', 'm', 'e']);
    assert(known_name(57) == seq!['L', 'o', 'g', 'L', 'e', 'v', 'e', 'l']);
    assert(ascii_lower(known_name(44))[0] != ascii_lower(known_name(57))[0]);
}

/// The keywords of length 9 differ once lower-cased.
proof fn lemma_names_differ_9()
    ensures
        forall|i: int, j: int| 0 <= j < i < KNOWN_KEYS && name_len(i) == 9 && name_len(j) == 9 ==> ascii_lower(#[trigger] known_name(j)) != ascii_lower(#[trigger] known_name(i)),
{
    assert(known_name(4) == seq!['B', 'a', 't', 'c', 'h', 'M', 'o', 'd', 'e']);
    assert(known_name(70) == seq!['P', 'r', 'o', 'x', 'y', 'J', 'u', 'm', 'p']);
    assert(known_name(86) == seq!['S', 't', 'd', 'i', 'n', 'N', 'u', 'l', 'l']);
    assert(ascii_lower(known_name(4))[0] != ascii_lower(known_name(70))[0]);
    assert(ascii_lower(known_name(4))[0] != ascii_lower(known_name(86))[0]);
    assert(ascii_lower(known_name(70))[0] != ascii_lower(known_name(86))[0]);
}

/// The keywords of length 10 differ once lower-cased.
proof fn lemma_names_differ_10()
    ensures
        forall|i: int, j: int| 0 <= j < i < KNOWN_KEYS && name_len(i) == 10 && name_len(j) == 10 ==> ascii_lower(#[trigger] known_name(j)) != ascii_lower(#[trigger] known_name(i)),
{
    assert(known_name(27) == seq!['E', 's', 'c', 'a', 'p', 'e', 'C', 'h', 'a', 'r']);
    assert(known_name(32) == seq!['F', 'o', 'r', 'w', 'a', 'r', 'd', 'X', '1', '1']);
    assert(known_name(58) == seq!['L', 'o', 'g', 'V', 'e', 'r', 'b', 'o', 's', 'e']);
    assert(known_name(74) == seq!['R', 'e', 'k', 'e', 'y', 'L', 'i', 'm', 'i', 't']);
    assert(known_name(77) == seq!['R', 'e', 'q', 'u', 'e', 's', 't', 'T', 'T', 'Y']);
    assert(ascii_lower(known_name(27))[0] != ascii_lower(known_name(32))[0]);
    assert(ascii_lower(known_name(27))[0] != ascii_lower(known_name(58))[0]);
    assert(ascii_lower(known_name(32))[0] != ascii_lower(known_name(58))[0]);
    assert(ascii_lower(known_name(27))[0] != ascii_lower(known_name(74))[0]);
    assert(ascii_lower(known_name(32))[0] != ascii_lower(known_name(74))[0]);
    assert(ascii_lower(known_name(58))[0] != ascii_lower(known_name(74))[0]);
    assert(ascii_lower(known_name(27))[0] != ascii_lower(known_name(77))[0]);
    assert(ascii_lower(known_name(32))[0] != ascii_lower(known_name(77))[0]);
    assert(ascii_lower(known_name(58))[0] != ascii_lower(known_name(77))[0]);
    assert(ascii_lower(known_name(74))[2] != ascii_lower(known_name(77))[2]);
}

/// The keywords of length 11 differ once lower-cased.
proof fn lemma_names_differ_11()
    ensures
        forall|i: int, j: int| 0 <= j < i < KNOWN_KEYS && name_len(i) == 11 && name_len(j) == 11 ==> ascii_lower(#[trigger] known_name(j)) != ascii_lower(#[trigger] known_name(i)),
{
    assert(known_name(5) == seq!['B', 'i', 'n', 'd', 'A', 'd', 'd', 'r', 'e', 's', 's']);
    assert(known_name(15) == seq!['C', 'h', 'e', 'c', 'k', 'H', 'o', 's', 't', 'I', 'P']);
    assert(known_name(18) == seq!['C', 'o', 'm', 'p', 'r', 'e', 's', 's', 'i', 'o', 'n']);
    assert(known_name(22) == seq!['C', 'o', 'n', 't', 'r', 'o', 'l', 'P', 'a', 't', 'h']);
    assert(known_name(84) == seq!['S', 'e', 's', 's', 'i', 'o', 'n', 'T', 'y', 'p', 'e']);
    assert(ascii_lower(known_name(5))[0] != ascii_lower(known_name(15))[0]);
    assert(ascii_lower(known_name(5))[0] != ascii_lower(known_name(18))[0]);
    assert(ascii_lower(known_name(15))[1] != ascii_lower(known_name(18))[1]);
    assert(ascii_lower(known_name(5))[0] != ascii_lower(known_name(22))[0]);
    assert(ascii_lower(known_name(15))[1] != ascii_lower(known_name(22))[1]);
    assert(ascii_lower(known_name(18))[2] != ascii_lower(known_name(22))[2]);
    assert(ascii_lower(known_name(5))[0] != ascii_lower(known_name(84))[0]);
    assert(ascii_lower(known_name(15))[0] != ascii_lower(known_name(84))[0]);
    assert(ascii_lower(known_name(18))[0] != ascii_lower(known_name(84))[0]);
    assert(ascii_lower(known_name(22))[0] != ascii_lower(known_name(84))[0]);
}

/// The keywords of length 12 differ once lower-cased.
proof fn lemma_names_differ_12()
    ensures
        forall|i: int, j: int| 0 <= j < i < KNOWN_KEYS && name_len(i) == 12 && name_len(j) == 12 ==> ascii_lower(#[trigger] known_name(j)) != ascii_lower(#[trigger] known_name(i)),
{
    assert(known_name(31) == seq!['F', 'o', 'r', 'w', 'a', 'r', 'd', 'A', 'g', 'e', 'n', 't']);
    assert(known_name(35) == seq!['G', 'a', 't', 'e', 'w', 'a', 'y', 'P', 'o', 'r', 't', 's']);
    assert(known_name(43) == seq!['H', 'o', 's', 't', 'K', 'e', 'y', 'A', 'l', 'i', 'a', 's']);
    assert(known_name(47) == seq!['I', 'd', 'e', 'n', 't', 'i', 't', 'y', 'F', 'i', 'l', 'e']);
    assert(known_name(55) == seq!['L', 'o', 'c', 'a', 'l', 'C', 'o', 'm', 'm', 'a', 'n', 'd']);
    assert(known_name(56) == seq!['L', 'o', 'c', 'a', 'l', 'F', 'o', 'r', 'w', 'a', 'r', 'd']);
    assert(known_name(69) == seq!['P', 'r', 'o', 'x', 'y', 'C', 'o', 'm', 'm', 'a', 'n', 'd']);
    assert(known_name(91) == seq!['T', 'C', 'P', 'K', 'e', 'e', 'p', 'A', 'l', 'i', 'v', 'e']);
    assert(known_name(94) == seq!['T', 'u', 'n', 'n', 'e', 'l', 'D', 'e', 'v', 'i', 'c', 'e']);
    assert(ascii_lower(known_name(31))[0] != ascii_lower(known_name(35))[0]);
    assert(ascii_lower(known_name(31))[0] != ascii_lower(known_name(43))[0]);
    assert(ascii_lower(known_name(35))[0] != ascii_lower(known_name(43))[0]);
    assert(ascii_lower(known_name(31))[0] != ascii_lower(known_name(47))[0]);
    assert(ascii_lower(known_name(35))[0] != ascii_lower(known_name(47))[0]);
    assert(ascii_lower(known_name(43))[0] != ascii_lower(known_name(47))[0]);
    assert(ascii_lower(known_name(31))[0] != ascii_lower(known_name(55))[0]);
    assert(ascii_lower(known_name(35))[0] != ascii_lower(known_name(55))[0]);
    assert(ascii_lower(known_name(43))[0] != ascii_lower(known_name(55))[0]);
    assert(ascii_lower(known_name(47))[0] != ascii_lower(known_name(55))[0]);
    assert(ascii_lower(known_name(31))[0] != ascii_lower(known_name(56))[0]);
    assert(ascii_lower(known_name(35))[0] != ascii_lower(known_name(56))[0]);
    assert(ascii_lower(known_name(43))[0] != ascii_lower(known_name(56))[0]);
    assert(ascii_lower(known_name(47))[0] != ascii_lower(known_name(56))[0]);
    assert(ascii_lower(known_name(55))[5] != ascii_lower(known_name(56))[5]);
    assert(ascii_lower(known_name(31))[0] != ascii_lower(known_name(69))[0]);
    assert(ascii_lower(known_name(35))[0] != ascii_lower(known_name(69))[0]);
    assert(ascii_lower(known_name(43))[0] != ascii_lower(known_name(69))[0]);
    assert(ascii_lower(known_name(47))[0] != ascii_lower(known_name(69))[0]);
    assert(ascii_lower(known_name(55))[0] != ascii_lower(known_name(69))[0]);
    assert(ascii_lower(known_name(56))[0] != ascii_lower(known_name(69))[0]);
    assert(ascii_lower(known_name(31))[0] != ascii_lower(known_name(91))[0]);
    assert(ascii_lower(known_name(35))[0] != ascii_lower(known_name(91))[0]);
    assert(ascii_lower(known_name(43))[0] != ascii_lower(known_name(91))[0]);
    assert(ascii_lower(known_name(47))[0] != ascii_lower(known_name(91))[0]);
    assert(ascii_lower(known_name(55))[0] != ascii_lower(known_name(91))[0]);
    assert(ascii_lower(known_name(56))[0] != ascii_lower(known_name(91))[0]);
    assert(ascii_lower(known_name(69))[0] != ascii_lower(known_name(91))[0]);
    assert(ascii_lower(known_name(31))[0] != ascii_lower(known_name(94))[0]);
    assert(ascii_lower(known_name(35))[0] != ascii_lower(known_name(94))[0]);
    assert(ascii_lower(known_name(43))[0] != ascii_lower(known_name(94))[0]);
    assert(ascii_lower(known_name(47))[0] != ascii_lower(known_name(94))[0]);
    assert(ascii_lower(known_name(55))[0] != ascii_lower(known_name(94))[0]);
    assert(ascii_lower(known_name(56))[0] != ascii_lower(known_name(94))[0]);
    assert(ascii_lower(known_name(69))[0] != ascii_lower(known_name(94))[0]);
    assert(ascii_lower(known_name(91))[1] != ascii_lower(known_name(94))[1]);
}

/// The keywords of length 13 differ once lower-cased.
proof fn lemma_names_differ_13()
    ensures
        forall|i: int, j: int| 0 <= j < i < KNOWN_KEYS && name_len(i) == 13 && name_len(j) == 13 ==> ascii_lower(#[trigger] known_name(j)) != ascii_lower(#[trigger] known_name(i)),
{
    assert(known_name(3) == seq!['A', 'd', 'd', 'r', 'e', 's', 's', 'F', 'a', 'm', 'i', 'l', 'y']);
    assert(known_name(6) == seq!['B', 'i', 'n', 'd', 'I', 'n', 't', 'e', 'r', 'f', 'a', 'c', 'e']);
    assert(known_name(21) == seq!['C', 'o', 'n', 't', 'r', 'o', 'l', 'M', 'a', 's', 't', 'e', 'r']);
    assert(known_name(46) == seq!['I', 'd', 'e', 'n', 't', 'i', 't', 'y', 'A', 'g', 'e', 'n', 't']);
    assert(known_name(48) == seq!['I', 'g', 'n', 'o', 'r', 'e', 'U', 'n', 'k', 'n', 'o', 'w', 'n']);
    assert(known_name(53) == seq!['K', 'e', 'x', 'A', 'l', 'g', 'o', 'r', 'i', 't', 'h', 'm', 's']);
    assert(known_name(75) == seq!['R', 'e', 'm', 'o', 't', 'e', 'C', 'o', 'm', 'm', 'a', 'n', 'd']);
    assert(known_name(76) == seq!['R', 'e', 'm', 'o', 't', 'e', 'F', 'o', 'r', 'w', 'a', 'r', 'd']);
    assert(known_name(99) == seq!['V', 'i', 's', 'u', 'a', 'l', 'H', 'o', 's', 't', 'K', 'e', 'y']);
    assert(known_name(100) == seq!['X', 'A', 'u', 't', 'h', 'L', 'o', 'c', 'a', 't', 'i', 'o', 'n']);
    assert(ascii_lower(known_name(3))[0] != ascii_lower(known_name(6))[0]);
    assert(ascii_lower(known_name(3))[0] != ascii_lower(known_name(21))[0]);
    assert(ascii_lower(known_name(6))[0] != ascii_lower(known_name(21))[0]);
    assert(ascii_lower(known_name(3))[0] != ascii_lower(known_name(46))[0]);
    assert(ascii_lower(known_name(6))[0] != ascii_lower(known_name(46))[0]);
    assert(ascii_lower(known_name(21))[0] != ascii_lower(known_name(46))[0]);
    assert(ascii_lower(known_name(3))[0] != ascii_lower(known_name(48))[0]);
    assert(ascii_lower(known_name(6))[0] != ascii_lower(known_name(48))[0]);
    assert(ascii_lower(known_name(21))[0] != ascii_lower(known_name(48))[0]);
    assert(ascii_lower(known_name(46))[1] != ascii_lower(known_name(48))[1]);
    assert(ascii_lower(known_name(3))[0] != ascii_lower(known_name(53))[0]);
    assert(ascii_lower(known_name(6))[0] != ascii_lower(known_name(53))[0]);
    assert(ascii_lower(known_name(21))[0] != ascii_lower(known_name(53))[0]);
    assert(ascii_lower(known_name(46))[0] != ascii_lower(known_name(53))[0]);
    assert(ascii_lower(known_name(48))[0] != ascii_lower(known_name(53))[0]);
    assert(ascii_lower(known_name(3))[0] != ascii_lower(known_name(75))[0]);
    assert(ascii_lower(known_name(6))[0] != ascii_lower(known_name(75))[0]);
    assert(ascii_lower(known_name(21))[0] != ascii_lower(known_name(75))[0]);
    assert(ascii_lower(known_name(46))[0] != ascii_lower(known_name(75))[0]);
    assert(ascii_lower(known_name(48))[0] != ascii_lower(known_name(75))[0]);
    assert(ascii_lower(known_name(53))[0] != ascii_lower(known_name(75))[0]);
    assert(ascii_lower(known_name(3))[0] != ascii_lower(known_name(76))[0]);
    assert(ascii_lower(known_name(6))[0] != ascii_lower(known_name(76))[0]);
    assert(ascii_lower(known_name(21))[0] != ascii_lower(known_name(76))[0]);
    assert(ascii_lower(known_name(46))[0] != ascii_lower(known_name(76))[0]);
    assert(ascii_lower(known_name(48))[0] != ascii_lower(known_name(76))[0]);
    assert(ascii_lower(known_name(53))[0] != ascii_lower(known_name(76))[0]);
    assert(ascii_lower(known_name(75))[6] != ascii_lower(known_name(76))[6]);
    assert(ascii_lower(known_name(3))[0] != ascii_lower(known_name(99))[0]);
    assert(ascii_lower(known_name(6))[0] != ascii_lower(known_name(99))[0]);
    assert(ascii_lower(known_name(21))[0] != ascii_lower(known_name(99))[0]);
    assert(ascii_lower(known_name(46))[0] != ascii_lower(known_name(99))[0]);
    assert(ascii_lower(known_name(48))[0] != ascii_lower(known_name(99))[0]);
    assert(ascii_lower(known_name(53))[0] != ascii_lower(known_name(99))[0]);
    assert(ascii_lower(known_name(75))[0] != ascii_lower(known_name(99))[0]);
    assert(ascii_lower(known_name(76))[0] != ascii_lower(known_name(99))[0]);
    assert(ascii_lower(known_name(3))[0] != ascii_lower(known_name(100))[0]);
    assert(ascii_lower(known_name(6))[0] != ascii_lower(known_name(100))[0]);
    assert(ascii_lower(known_name(21))[0] != ascii_lower(known_name(100))[0]);
    assert(ascii_lower(known_name(46))[0] != ascii_lower(known_name(100))[0]);
    assert(ascii_lower(known_name(48))[0] != ascii_lower(known_name(100))[0]);
    assert(ascii_lower(known_name(53))[0] != ascii_lower(known_name(100))[0]);
    assert(ascii_lower(known_name(75))[0] != ascii_lower(known_name(100))[0]);
    assert(ascii_lower(known_name(76))[0] != ascii_lower(known_name(100))[0]);
    assert(ascii_lower(known_name(99))[0] != ascii_lower(known_name(100))[0]);
}

/// The keywords of length 14 differ once lower-cased.
proof fn lemma_names_differ_14()
    ensures
        forall|i: int, j: int| 0 <= j < i < KNOWN_KEYS && name_len(i) == 14 && name_len(j) == 14 ==> ascii_lower(#[trigger] known_name(j)) != ascii_lower(#[trigger] known_name(i)),
{
    assert(known_name(2) == seq!['A', 'd', 'd', 'K', 'e', 'y', 's', 'T', 'o', 'A', 'g', 'e', 'n', 't']);
    assert(known_name(14) == seq!['C', 'h', 'a', 'n', 'n', 'e', 'l', 'T', 'i', 'm', 'e', 'o', 'u', 't']);
    assert(known_name(20) == seq!['C', 'o', 'n', 'n', 'e', 'c', 't', 'T', 'i', 'm', 'e', 'o', 'u', 't']);
    assert(known_name(23) == seq!['C', 'o', 'n', 't', 'r', 'o', 'l', 'P', 'e', 'r', 's', 'i', 's', 't']);
    assert(known_name(24) == seq!['D', 'y', 'n', 'a', 'm', 'i', 'c', 'F', 'o', 'r', 'w', 'a', 'r', 'd']);
    assert(known_name(39) == seq!['H', 'a', 's', 'h', 'K', 'n', 'o', 'w', 'n', 'H', 'o', 's', 't', 's']);
    assert(known_name(45) == seq!['I', 'd', 'e', 'n', 't', 'i', 't', 'i', 'e', 's', 'O', 'n', 'l', 'y']);
    assert(known_name(66) == seq!['P', 'K', 'C', 'S', '1', '1', 'P', 'r', 'o', 'v', 'i', 'd', 'e', 'r']);
    assert(known_name(71) == seq!['P', 'r', 'o', 'x', 'y', 'U', 's', 'e', 'F', 'd', 'p', 'a', 's', 's']);
    assert(known_name(90) == seq!['S', 'y', 's', 'l', 'o', 'g', 'F', 'a', 'c', 'i', 'l', 'i', 't', 'y']);
    assert(known_name(95) == seq!['U', 'p', 'd', 'a', 't', 'e', 'H', 'o', 's', 't', 'K', 'e', 'y', 's']);
    assert(ascii_lower(known_name(2))[0] != ascii_lower(known_name(14))[0]);
    assert(ascii_lower(known_name(2))[0] != ascii_lower(known_name(20))[0]);
    assert(ascii_lower(known_name(14))[1] != ascii_lower(known_name(20))[1]);
    assert(ascii_lower(known_name(2))[0] != ascii_lower(known_name(23))[0]);
    assert(ascii_lower(known_name(14))[1] != ascii_lower(known_name(23))[1]);
    assert(ascii_lower(known_name(20))[3] != ascii_lower(known_name(23))[3]);
    assert(ascii_lower(known_name(2))[0] != ascii_lower(known_name(24))[0]);
    assert(ascii_lower(known_name(14))[0] != ascii_lower(known_name(24))[0]);
    assert(ascii_lower(known_name(20))[0] != ascii_lower(known_name(24))[0]);
    assert(ascii_lower(known_name(23))[0] != ascii_lower(known_name(24))[0]);
    assert(ascii_lower(known_name(2))[0] != ascii_lower(known_name(39))[0]);
    assert(ascii_lower(known_name(14))[0] != ascii_lower(known_name(39))[0]);
    assert(ascii_lower(known_name(20))[0] != ascii_lower(known_name(39))[0]);
    assert(ascii_lower(known_name(23))[0] != ascii_lower(known_name(39))[0]);
    assert(ascii_lower(known_name(24))[0] != ascii_lower(known_name(39))[0]);
    assert(ascii_lower(known_name(2))[0] != ascii_lower(known_name(45))[0]);
    assert(ascii_lower(known_name(14))[0] != ascii_lower(known_name(45))[0]);
    assert(ascii_lower(known_name(20))[0] != ascii_lower(known_name(45))[0]);
    assert(ascii_lower(known_name(23))[0] != ascii_lower(known_name(45))[0]);
    assert(ascii_lower(known_name(24))[0] != ascii_lower(known_name(45))[0]);
    assert(ascii_lower(known_name(39))[0] != ascii_lower(known_name(45))[0]);
    assert(ascii_lower(known_name(2))[0] != ascii_lower(known_name(66))[0]);
    assert(ascii_lower(known_name(14))[0] != ascii_lower(known_name(66))[0]);
    assert(ascii_lower(known_name(20))[0] != ascii_lower(known_name(66))[0]);
    assert(ascii_lower(known_name(23))[0] != ascii_lower(known_name(66))[0]);
    assert(ascii_lower(known_name(24))[0] != ascii_lower(known_name(66))[0]);
    assert(ascii_lower(known_name(39))[0] != ascii_lower(known_name(66))[0]);
    assert(ascii_lower(known_name(45))[0] != ascii_lower(known_name(66))[0]);
    assert(ascii_lower(known_name(2))[0] != ascii_lower(known_name(71))[0]);
    assert(ascii_lower(known_name(14))[0] != ascii_lower(known_name(71))[0]);
    assert(ascii_lower(known_name(20))[0] != ascii_lower(known_name(71))[0]);
    assert(ascii_lower(known_name(23))[0] != ascii_lower(known_name(71))[0]);
    assert(ascii_lower(known_name(24))[0] != ascii_lower(known_name(71))[0]);
    assert(ascii_lower(known_name(39))[0] != ascii_lower(known_name(71))[0]);
    assert(ascii_lower(known_name(45))[0] != ascii_lower(known_name(71))[0]);
    assert(ascii_lower(known_name(66))[1] != ascii_lower(known_name(71))[1]);
    assert(ascii_lower(known_name(2))[0] != ascii_lower(known_name(90))[0]);
    assert(ascii_lower(known_name(14))[0] != ascii_lower(known_name(90))[0]);
    assert(ascii_lower(known_name(20))[0] != ascii_lower(known_name(90))[0]);
    assert(ascii_lower(known_name(23))[0] != ascii_lower(known_name(90))[0]);
    assert(ascii_lower(known_name(24))[0] != ascii_lower(known_name(90))[0]);
    assert(ascii_lower(known_name(39))[0] != ascii_lower(known_name(90))[0]);
    assert(ascii_lower(known_name(45))[0] != ascii_lower(known_name(90))[0]);
    assert(ascii_lower(known_name(66))[0] != ascii_lower(known_name(90))[0]);
    assert(ascii_lower(known_name(71))[0] != ascii_lower(known_name(90))[0]);
    assert(ascii_lower(known_name(2))[0] != ascii_lower(known_name(95))[0]);
    assert(ascii_lower(known_name(14))[0] != ascii_lower(known_name(95))[0]);
    assert(ascii_lower(known_name(20))[0] != ascii_lower(known_name(95))[0]);
    assert(ascii_lower(known_name(23))[0] != ascii_lower(known_name(95))[0]);
    assert(ascii_lower(known_name(24))[0] != ascii_lower(known_name(95))[0]);
    assert(ascii_lower(known_name(39))[0] != ascii_lower(known_name(95))[0]);
    assert(ascii_lower(known_name(45))[0] != ascii_lower(known_name(95))[0]);
    assert(ascii_lower(known_name(66))[0] != ascii_lower(known_name(95))[0]);
    assert(ascii_lower(known_name(71))[0] != ascii_lower(known_name(95))[0]);
    assert(ascii_lower(known_name(90))[0] != ascii_lower(known_name(95))[0]);
}

/// The keywords of length 15 differ once lower-cased.
proof fn lemma_names_differ_15()
    ensures
        forall|i: int, j: int| 0 <= j < i < KNOWN_KEYS && name_len(i) == 15 && name_len(j) == 15 ==> ascii_lower(#[trigger] known_name(j)) != ascii_lower(#[trigger] known_name(i)),
{
    assert(known_name(13) == seq!['C', 'e', 'r', 't', 'i', 'f', 'i', 'c', 'a', 't', 'e', 'F', 'i', 'l', 'e']);
    assert(known_name(29) == seq!['F', 'i', 'n', 'g', 'e', 'r', 'p', 'r', 'i', 'n', 't', 'H', 'a', 's', 'h']);
    assert(known_name(78) == seq!['R', 'e', 'q', 'u', 'i', 'r', 'e', 'd', 'R', 'S', 'A', 'S', 'i', 'z', 'e']);
    assert(known_name(79) == seq!['R', 'e', 'v', 'o', 'k', 'e', 'd', 'H', 'o', 's', 't', 'K', 'e', 'y', 's']);
    assert(ascii_lower(known_name(13))[0] != ascii_lower(known_name(29))[0]);
    assert(ascii_lower(known_name(13))[0] != ascii_lower(known_name(78))[0]);
    assert(ascii_lower(known_name(29))[0] != ascii_lower(known_name(78))[0]);
    assert(ascii_lower(known_name(13))[0] != ascii_lower(known_name(79))[0]);
    assert(ascii_lower(known_name(29))[0] != ascii_lower(known_name(79))[0]);
    assert(ascii_lower(known_name(78))[2] != ascii_lower(known_name(79))[2]);
}

/// The keywords of length 16 differ once lower-cased.
proof fn lemma_names_differ_16()
    ensures
        forall|i: int, j: int| 0 <= j < i < KNOWN_KEYS && name_len(i) == 16 && name_len(j) == 16 ==> ascii_lower(#[trigger] known_name(j)) != ascii_lower(#[trigger] known_name(i)),
{
    assert(known_name(7) == seq!['C', 'a', 'n', 'o', 'n', 'i', 'c', 'a', 'l', 'D', 'o', 'm', 'a', 'i', 'n', 's']);
    assert(known_name(26) == seq!['E', 'n', 'a', 'b', 'l', 'e', 'S', 'S', 'H', 'K', 'e', 'y', 's', 'i', 'g', 'n']);
    assert(known_name(65) == seq!['P', 'e', 'r', 'm', 'i', 't', 'R', 'e', 'm', 'o', 't', 'e', 'O', 'p', 'e', 'n']);
    assert(known_name(98) == seq!['V', 'e', 'r', 'i', 'f', 'y', 'H', 'o', 's', 't', 'K', 'e', 'y', 'D', 'N', 'S']);
    assert(ascii_lower(known_name(7))[0] != ascii_lower(known_name(26))[0]);
    assert(ascii_lower(known_name(7))[0] != ascii_lower(known_name(65))[0]);
    assert(ascii_lower(known_name(26))[0] != ascii_lower(known_name(65))[0]);
    assert(ascii_lower(known_name(7))[0] != ascii_lower(known_name(98))[0]);
    assert(ascii_lower(known_name(26))[0] != ascii_lower(known_name(98))[0]);
    assert(ascii_lower(known_name(65))[0] != ascii_lower(known_name(98))[0]);
}

/// The keywords of length 17 differ once lower-cased.
proof fn lemma_names_differ_17()
    ensures
        forall|i: int, j: int| 0 <= j < i < KNOWN_KEYS && name_len(i) == 17 && name_len(j) == 17 ==> ascii_lower(#[trigger] known_name(j)) != ascii_lower(#[trigger] known_name(i)),
{
    assert(known_name(33) == seq!['F', 'o', 'r', 'w', 'a', 'r', 'd', 'X', '1', '1', 'T', 'i', 'm', 'e', 'o', 'u', 't']);
    assert(known_name(34) == seq!['F', 'o', 'r', 'w', 'a', 'r', 'd', 'X', '1', '1', 'T', 'r', 'u', 's', 't', 'e', 'd']);
    assert(known_name(42) == seq!['H', 'o', 's', 't', 'K', 'e', 'y', 'A', 'l', 'g', 'o', 'r', 'i', 't', 'h', 'm', 's']);
    assert(known_name(54) == seq!['K', 'n', 'o', 'w', 'n', 'H', 'o', 's', 't', 's', 'C', 'o', 'm', 'm', 'a', 'n', 'd']);
    assert(ascii_lower(known_name(33))[11] != ascii_lower(known_name(34))[11]);
    assert(ascii_lower(known_name(33))[0] != ascii_lower(known_name(42))[0]);
    assert(ascii_lower(known_name(34))[0] != ascii_lower(known_name(42))[0]);
    assert(ascii_lower(known_name(33))[0] != ascii_lower(known_name(54))[0]);
    assert(ascii_lower(known_name(34))[0] != ascii_lower(known_name(54))[0]);
    assert(ascii_lower(known_name(42))[0] != ascii_lower(known_name(54))[0]);
}

/// The keywords of length 18 differ once lower-cased.
proof fn lemma_names_differ_18()
    ensures
        forall|i: int, j: int| 0 <= j < i < KNOWN_KEYS && name_len(i) == 18 && name_len(j) == 18 ==> ascii_lower(#[trigger] known_name(j)) != ascii_lower(#[trigger] known_name(i)),
{
    assert(known_name(19) == seq!['C', 'o', 'n', 'n', 'e', 'c', 't', 'i', 'o', 'n', 'A', 't', 't', 'e', 'm', 'p', 't', 's']);
    assert(known_name(64) == seq!['P', 'e', 'r', 'm', 'i', 't', 'L', 'o', 'c', 'a', 'l', 'C', 'o', 'm', 'm', 'a', 'n', 'd']);
    assert(known_name(97) == seq!['U', 's', 'e', 'r', 'K', 'n', 'o', 'w', 'n', 'H', 'o', 's', 't', 's', 'F', 'i', 'l', 'e']);
    assert(ascii_lower(known_name(19))[0] != ascii_lower(known_name(64))[0]);
    assert(ascii_lower(known_name(19))[0] != ascii_lower(known_name(97))[0]);
    assert(ascii_lower(known_name(64))[0] != ascii_lower(known_name(97))[0]);
}

/// The keywords of length 19 differ once lower-cased.
proof fn lemma_names_differ_19()
    ensures
        forall|i: int, j: int| 0 <= j < i < KNOWN_KEYS && name_len(i) == 19 && name_len(j) == 19 ==> ascii_lower(#[trigger] known_name(j)) != ascii_lower(#[trigger] known_name(i)),
{
    assert(known_name(10) == seq!['C', 'a', 'n', 'o', 'n', 'i', 'c', 'a', 'l', 'i', 'z', 'e', 'M', 'a', 'x', 'D', 'o', 't', 's']);
    assert(known_name(17) == seq!['C', 'l', 'e', 'a', 'r', 'A', 'l', 'l', 'F', 'o', 'r', 'w', 'a', 'r', 'd', 'i', 'n', 'g', 's']);
    assert(known_name(80) == seq!['S', 'e', 'c', 'u', 'r', 'i', 't', 'y', 'K', 'e', 'y', 'P', 'r', 'o', 'v', 'i', 'd', 'e', 'r']);
    assert(known_name(82) == seq!['S', 'e', 'r', 'v', 'e', 'r', 'A', 'l', 'i', 'v', 'e', 'C', 'o', 'u', 'n', 't', 'M', 'a', 'x']);
    assert(known_name(83) == seq!['S', 'e', 'r', 'v', 'e', 'r', 'A', 'l', 'i', 'v', 'e', 'I', 'n', 't', 'e', 'r', 'v', 'a', 'l']);
    assert(known_name(87) == seq!['S', 't', 'r', 'e', 'a', 'm', 'L', 'o', 'c', 'a', 'l', 'B', 'i', 'n', 'd', 'M', 'a', 's', 'k']);
    assert(ascii_lower(known_name(10))[1] != ascii_lower(known_name(17))[1]);
    assert(ascii_lower(known_name(10))[0] != ascii_lower(known_name(80))[0]);
    assert(ascii_lower(known_name(17))[0] != ascii_lower(known_name(80))[0]);
    assert(ascii_lower(known_name(10))[0] != ascii_lower(known_name(82))[0]);
    assert(ascii_lower(known_name(17))[0] != ascii_lower(known_name(82))[0]);
    assert(ascii_lower(known_name(80))[2] != ascii_lower(known_name(82))[2]);
    assert(ascii_lower(known_name(10))[0] != ascii_lower(known_name(83))[0]);
    assert(ascii_lower(known_name(17))[0] != ascii_lower(known_name(83))[0]);
    assert(ascii_lower(known_name(80))[2] != ascii_lower(known_name(83))[2]);
    assert(ascii_lower(known_name(82))[11] != ascii_lower(known_name(83))[11]);
    assert(ascii_lower(known_name(10))[0] != ascii_lower(known_name(87))[0]);
    assert(ascii_lower(known_name(17))[0] != ascii_lower(known_name(87))[0]);
    assert(ascii_lower(known_name(80))[1] != ascii_lower(known_name(87))[1]);
    assert(ascii_lower(known_name(82))[1] != ascii_lower(known_name(87))[1]);
    assert(ascii_lower(known_name(83))[1] != ascii_lower(known_name(87))[1]);
}

/// The keywords of length 20 differ once lower-cased.
proof fn lemma_names_differ_20()
    ensures
        forall|i: int, j: int| 0 <= j < i < KNOWN_KEYS && name_len(i) == 20 && name_len(j) == 20 ==> ascii_lower(#[trigger] known_name(j)) != ascii_lower(#[trigger] known_name(i)),
{
    assert(known_name(9) == seq!['C', 'a', 'n', 'o', 'n', 'i', 'c', 'a', 'l', 'i', 'z', 'e', 'H', 'o', 's', 't', 'n', 'a', 'm', 'e']);
    assert(known_name(28) == seq!['E', 'x', 'i', 't', 'O', 'n', 'F', 'o', 'r', 'w', 'a', 'r', 'd', 'F', 'a', 'i', 'l', 'u', 'r', 'e']);
    assert(known_name(36) == seq!['G', 'l', 'o', 'b', 'a', 'l', 'K', 'n', 'o', 'w', 'n', 'H', 'o', 's', 't', 's', 'F', 'i', 'l', 'e']);
    assert(known_name(37) == seq!['G', 'S', 'S', 'A', 'P', 'I', 'A', 'u', 't', 'h', 'e', 'n', 't', 'i', 'c', 'a', 't', 'i', 'o', 'n']);
    assert(known_name(73) == seq!['P', 'u', 'b', 'k', 'e', 'y', 'A', 'u', 't', 'h', 'e', 'n', 't', 'i', 'c', 'a', 't', 'i', 'o', 'n']);
    assert(ascii_lower(known_name(9))[0] != ascii_lower(known_name(28))[0]);
    assert(ascii_lower(known_name(9))[0] != ascii_lower(known_name(36))[0]);
    assert(ascii_lower(known_name(28))[0] != ascii_lower(known_name(36))[0]);
    assert(ascii_lower(known_name(9))[0] != ascii_lower(known_name(37))[0]);
    assert(ascii_lower(known_name(28))[0] != ascii_lower(known_name(37))[0]);
    assert(ascii_lower(known_name(36))[1] != ascii_lower(known_name(37))[1]);
    assert(ascii_lower(known_name(9))[0] != ascii_lower(known_name(73))[0]);
    assert(ascii_lower(known_name(28))[0] != ascii_lower(known_name(73))[0]);
    assert(ascii_lower(known_name(36))[0] != ascii_lower(known_name(73))[0]);
    assert(ascii_lower(known_name(37))[0] != ascii_lower(known_name(73))[0]);
}

/// The keywords of length 21 differ once lower-cased.
proof fn lemma_names_differ_21()
    ensures
        forall|i: int, j: int| 0 <= j < i < KNOWN_KEYS && name_len(i) == 21 && name_len(j) == 21 ==> ascii_lower(#[trigger] known_name(j)) != ascii_lower(#[trigger] known_name(i)),
{
    assert(known_name(12) == seq!['C', 'A', 'S', 'i', 'g', 'n', 'a', 't', 'u', 'r', 'e', 'A', 'l', 'g', 'o', 'r', 'i', 't', 'h', 'm', 's']);
    assert(known_name(52) == seq!['K', 'b', 'd', 'I', 'n', 't', 'e', 'r', 'a', 'c', 't', 'i', 'v', 'e', 'D', 'e', 'v', 'i', 'c', 'e', 's']);
    assert(known_name(88) == seq!['S', 't', 'r', 'e', 'a', 'm', 'L', 'o', 'c', 'a', 'l', 'B', 'i', 'n', 'd', 'U', 'n', 'l', 'i', 'n', 'k']);
    assert(known_name(89) == seq!['S', 't', 'r', 'i', 'c', 't', 'H', 'o', 's', 't', 'K', 'e', 'y', 'C', 'h', 'e', 'c', 'k', 'i', 'n', 'g']);
    assert(ascii_lower(known_name(12))[0] != ascii_lower(known_name(52))[0]);
    assert(ascii_lower(known_name(12))[0] != ascii_lower(known_name(88))[0]);
    assert(ascii_lower(known_name(52))[0] != ascii_lower(known_name(88))[0]);
    assert(ascii_lower(known_name(12))[0] != ascii_lower(known_name(89))[0]);
    assert(ascii_lower(known_name(52))[0] != ascii_lower(known_name(89))[0]);
    assert(ascii_lower(known_name(88))[3] != ascii_lower(known_name(89))[3]);
}

/// The keywords of length 22 differ once lower-cased.
proof fn lemma_names_differ_22()
    ensures
        forall|i: int, j: int| 0 <= j < i < KNOWN_KEYS && name_len(i) == 22 && name_len(j) == 22 ==> ascii_lower(#[trigger] known_name(j)) != ascii_lower(#[trigger] known_name(i)),
{
    assert(known_name(62) == seq!['O', 'b', 's', 'c', 'u', 'r', 'e', 'K', 'e', 'y', 's', 't', 'r', 'o', 'k', 'e', 'T', 'i', 'm', 'i', 'n', 'g']);
    assert(known_name(63) == seq!['P', 'a', 's', 's', 'w', 'o', 'r', 'd', 'A', 'u', 't', 'h', 'e', 'n', 't', 'i', 'c', 'a', 't', 'i', 'o', 'n']);
    assert(ascii_lower(known_name(62))[0] != ascii_lower(known_name(63))[0]);
}

/// The keywords of length 23 differ once lower-cased.
proof fn lemma_names_differ_23()
    ensures
        forall|i: int, j: int| 0 <= j < i < KNOWN_KEYS && name_len(i) == 23 && name_len(j) == 23 ==> ascii_lower(#[trigger] known_name(j)) != ascii_lower(#[trigger] known_name(i)),
{
    assert(known_name(25) == seq!['E', 'n', 'a', 'b', 'l', 'e', 'E', 's', 'c', 'a', 'p', 'e', 'C', 'o', 'm', 'm', 'a', 'n', 'd', 'l', 'i', 'n', 'e']);
    assert(known_name(30) == seq!['F', 'o', 'r', 'k', 'A', 'f', 't', 'e', 'r', 'A', 'u', 't', 'h', 'e', 'n', 't', 'i', 'c', 'a', 't', 'i', 'o', 'n']);
    assert(known_name(41) == seq!['H', 'o', 's', 't', 'b', 'a', 's', 'e', 'd', 'A', 'u', 't', 'h', 'e', 'n', 't', 'i', 'c', 'a', 't', 'i', 'o', 'n']);
    assert(known_name(61) == seq!['N', 'u', 'm', 'b', 'e', 'r', 'O', 'f', 'P', 'a', 's', 's', 'w', 'o', 'r', 'd', 'P', 'r', 'o', 'm', 'p', 't', 's']);
    assert(ascii_lower(known_name(25))[0] != ascii_lower(known_name(30))[0]);
    assert(ascii_lower(known_name(25))[0] != ascii_lower(known_name(41))[0]);
    assert(ascii_lower(known_name(30))[0] != ascii_lower(known_name(41))[0]);
    assert(ascii_lower(known_name(25))[0] != ascii_lower(known_name(61))[0]);
    assert(ascii_lower(known_name(30))[0] != ascii_lower(known_name(61))[0]);
    assert(ascii_lower(known_name(41))[0] != ascii_lower(known_name(61))[0]);
}

/// The keywords of length 24 differ once lower-cased.
proof fn lemma_names_differ_24()
    ensures
        forall|i: int, j: int| 0 <= j < i < KNOWN_KEYS && name_len(i) == 24 && name_len(j) == 24 ==> ascii_lower(#[trigger] known_name(j)) != ascii_lower(#[trigger] known_name(i)),
{
    assert(known_name(68) == seq!['P', 'r', 'e', 'f', 'e', 'r', 'r', 'e', 'd', 'A', 'u', 't', 'h', 'e', 'n', 't', 'i', 'c', 'a', 't', 'i', 'o', 'n', 's']);
    assert(known_name(72) == seq!['P', 'u', 'b', 'k', 'e', 'y', 'A', 'c', 'c', 'e', 'p', 't', 'e', 'd', 'A', 'l', 'g', 'o', 'r', 'i', 't', 'h', 'm', 's']);
    assert(ascii_lower(known_name(68))[1] != ascii_lower(known_name(72))[1]);
}

/// The keywords of length 25 differ once lower-cased.
proof fn lemma_names_differ_25()
    ensures
        forall|i: int, j: int| 0 <= j < i < KNOWN_KEYS && name_len(i) == 25 && name_len(j) == 25 ==> ascii_lower(#[trigger] known_name(j)) != ascii_lower(#[trigger] known_name(i)),
{
    assert(known_name(8) == seq!['C', 'a', 'n', 'o', 'n', 'i', 'c', 'a', 'l', 'i', 'z', 'e', 'F', 'a', 'l', 'l', 'b', 'a', 'c', 'k', 'L', 'o', 'c', 'a', 'l']);
    assert(known_name(38) == seq!['G', 'S', 'S', 'A', 'P', 'I', 'D', 'e', 'l', 'e', 'g', 'a', 't', 'e', 'C', 'r', 'e', 'd', 'e', 'n', 't', 'i', 'a', 'l', 's']);
    assert(ascii_lower(known_name(8))[0] != ascii_lower(known_name(38))[0]);
}

/// The keywords of length 27 differ once lower-cased.
proof fn lemma_names_differ_27()
    ensures
        forall|i: int, j: int| 0 <= j < i < KNOWN_KEYS && name_len(i) == 27 && name_len(j) == 27 ==> ascii_lower(#[trigger] known_name(j)) != ascii_lower(#[trigger] known_name(i)),
{
    assert(known_name(11) == seq!['C', 'a', 'n', 'o', 'n', 'i', 'c', 'a', 'l', 'i', 'z', 'e', 'P', 'e', 'r', 'm', 'i', 't', 't', 'e', 'd', 'C', 'N', 'A', 'M', 'E', 's']);
    assert(known_name(40) == seq!['H', 'o', 's', 't', 'b', 'a', 's', 'e', 'd', 'A', 'c', 'c', 'e', 'p', 't', 'e', 'd', 'A', 'l', 'g', 'o', 'r', 'i', 't', 'h', 'm', 's']);
    assert(ascii_lower(known_name(11))[0] != ascii_lower(known_name(40))[0]);
}

/// Keyword spellings differ pairwise once lower-cased.
proof fn lemma_names_differ()
    ensures
        forall|i: int, j: int| 0 <= j < i < KNOWN_KEYS ==> ascii_lower(#[trigger] known_name(j)) != ascii_lower(#[trigger] known_name(i)),
{
    lemma_name_lens();
    lemma_names_differ_4();
    lemma_names_differ_5();
    lemma_names_differ_6();
    lemma_names_differ_7();
    lemma_names_differ_8();
    lemma_names_differ_9();
    lemma_names_differ_10();
    lemma_names_differ_11();
    lemma_names_differ_12();
    lemma_names_differ_13();
    lemma_names_differ_14();
    lemma_names_differ_15();
    lemma_names_differ_16();
    lemma_names_differ_17();
    lemma_names_differ_18();
    lemma_names_differ_19();
    lemma_names_differ_20();
    lemma_names_differ_21();
    lemma_names_differ_22();
    lemma_names_differ_23();
    lemma_names_differ_24();
    lemma_names_differ_25();
    lemma_names_differ_27();
    assert forall|i: int, j: int| 0 <= j < i < KNOWN_KEYS implies ascii_lower(#[trigger] known_name(j)) != ascii_lower(#[trigger] known_name(i)) by {
        if name_len(i) != name_len(j) {
            assert(ascii_lower(known_name(j)).len() != ascii_lower(known_name(i)).len());
        }
    }
}


/// Finding a keyword skips those whose lower-case spelling is not `l`.
proof fn lemma_find_known_at(l: Seq<char>, a: nat, i: nat)
    requires
        a <= i < KNOWN_KEYS,
        ascii_lower(known_name(i as int)) == l,
        forall|j: int| a <= j < i ==> ascii_lower(#[trigger] known_name(j)) != l,
    ensures
        find_known(l, a) == Some(i),
    decreases i - a,
{
    if a < i {
        assert(ascii_lower(known_name(a as int)) != l);
        lemma_find_known_at(l, a + 1, i);
    }
}

/// The lower-case spelling of a keyword finds that keyword.
proof fn lemma_find_keyword(i: int)
    requires
        0 <= i < KNOWN_KEYS,
    ensures
        find_known(ascii_lower(known_name(i)), 0) == Some(i as nat),
{
    lemma_names_differ();
    let l = ascii_lower(known_name(i));
    assert forall|j: int| 0 <= j < i implies ascii_lower(#[trigger] known_name(j)) != l by {
        assert(ascii_lower(known_name(j)) != ascii_lower(known_name(i)));
    }
    lemma_find_known_at(l, 0, i as nat);
}

/// Every keyword, written with its canonical spelling, reads back as itself.
pub proof fn lemma_keywords_read_back(k: KeyView)
    requires
        0 <= k.ordinal < KNOWN_KEYS,
        k.other == Seq::<char>::empty(),
    ensures
        parse_key(key_name(k)) == k,
{
    lemma_find_keyword(k.ordinal);
    assert(known_view(k.ordinal) =~= k);
}

/// A keyword is read whatever the ASCII case of its letters.
pub proof fn lemma_keyword_any_case(s: Seq<char>, i: int)
    requires
        0 <= i < KNOWN_KEYS,
        ascii_lower(s) == ascii_lower(known_name(i)),
    ensures
        parse_key(s) == known_view(i),
{
    lemma_find_keyword(i);
}

} // verus!
