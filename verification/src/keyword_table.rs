//! The keyword table spelled out: each keyword of ssh_config(5) by its
//! name, which keys accumulate, and which lines open a section.
use crate::chars::{ascii_lower, ascii_lower_char};
use crate::field_keys::{
    find_known, key_is_cumulative, key_is_selector, key_name, known_name, known_view,
    lemma_keywords_read_back, parse_key, FieldKey, KNOWN_KEYS,
};
use crate::line::{LineKindView, LineView};
use vstd::prelude::*;

verus! {

/// Every keyword, written with its canonical spelling, reads back as itself.
proof fn lemma_every_keyword_reads_back()
    ensures
        forall|i: int| 0 <= i < KNOWN_KEYS ==> parse_key(#[trigger] known_name(i)) == known_view(i),
{
    assert forall|i: int| 0 <= i < KNOWN_KEYS implies parse_key(#[trigger] known_name(i)) == known_view(i) by {
        lemma_keywords_read_back(known_view(i));
    }
}

/// The names of keywords 0 to 9 of the table.
proof fn lemma_names_0()
    ensures
        parse_key("Host"@) == (FieldKey::Host)@,
        key_name((FieldKey::Host)@) == "Host"@,
        parse_key("Match"@) == (FieldKey::Match)@,
        key_name((FieldKey::Match)@) == "Match"@,
        parse_key("AddKeysToAgent"@) == (FieldKey::AddKeysToAgent)@,
        key_name((FieldKey::AddKeysToAgent)@) == "AddKeysToAgent"@,
        parse_key("AddressFamily"@) == (FieldKey::AddressFamily)@,
        key_name((FieldKey::AddressFamily)@) == "AddressFamily"@,
        parse_key("BatchMode"@) == (FieldKey::BatchMode)@,
        key_name((FieldKey::BatchMode)@) == "BatchMode"@,
        parse_key("BindAddress"@) == (FieldKey::BindAddress)@,
        key_name((FieldKey::BindAddress)@) == "BindAddress"@,
        parse_key("BindInterface"@) == (FieldKey::BindInterface)@,
        key_name((FieldKey::BindInterface)@) == "BindInterface"@,
        parse_key("CanonicalDomains"@) == (FieldKey::CanonicalDomains)@,
        key_name((FieldKey::CanonicalDomains)@) == "CanonicalDomains"@,
        parse_key("CanonicalizeFallbackLocal"@) == (FieldKey::CanonicalizeFallbackLocal)@,
        key_name((FieldKey::CanonicalizeFallbackLocal)@) == "CanonicalizeFallbackLocal"@,
        parse_key("CanonicalizeHostname"@) == (FieldKey::CanonicalizeHostname)@,
        key_name((FieldKey::CanonicalizeHostname)@) == "CanonicalizeHostname"@,
{
    lemma_every_keyword_reads_back();
    reveal_strlit("Host");
    assert("Host"@ =~= known_name(0));
    reveal_strlit("Match");
    assert("Match"@ =~= known_name(1));
    reveal_strlit("AddKeysToAgent");
    assert("AddKeysToAgent"@ =~= known_name(2));
    reveal_strlit("AddressFamily");
    assert("AddressFamily"@ =~= known_name(3));
    reveal_strlit("BatchMode");
    assert("BatchMode"@ =~= known_name(4));
    reveal_strlit("BindAddress");
    assert("BindAddress"@ =~= known_name(5));
    reveal_strlit("BindInterface");
    assert("BindInterface"@ =~= known_name(6));
    reveal_strlit("CanonicalDomains");
    assert("CanonicalDomains"@ =~= known_name(7));
    reveal_strlit("CanonicalizeFallbackLocal");
    assert("CanonicalizeFallbackLocal"@ =~= known_name(8));
    reveal_strlit("CanonicalizeHostname");
    assert("CanonicalizeHostname"@ =~= known_name(9));
}

/// The names of keywords 10 to 19 of the table.
proof fn lemma_names_1()
    ensures
        parse_key("CanonicalizeMaxDots"@) == (FieldKey::CanonicalizeMaxDots)@,
        key_name((FieldKey::CanonicalizeMaxDots)@) == "CanonicalizeMaxDots"@,
        parse_key("CanonicalizePermittedCNAMEs"@) == (FieldKey::CanonicalizePermittedCNAMEs)@,
        key_name((FieldKey::CanonicalizePermittedCNAMEs)@) == "CanonicalizePermittedCNAMEs"@,
        parse_key("CASignatureAlgorithms"@) == (FieldKey::CASignatureAlgorithms)@,
        key_name((FieldKey::CASignatureAlgorithms)@) == "CASignatureAlgorithms"@,
        parse_key("CertificateFile"@) == (FieldKey::CertificateFile)@,
        key_name((FieldKey::CertificateFile)@) == "CertificateFile"@,
        parse_key("ChannelTimeout"@) == (FieldKey::ChannelTimeout)@,
        key_name((FieldKey::ChannelTimeout)@) == "ChannelTimeout"@,
        parse_key("CheckHostIP"@) == (FieldKey::CheckHostIP)@,
        key_name((FieldKey::CheckHostIP)@) == "CheckHostIP"@,
        parse_key("Ciphers"@) == (FieldKey::Ciphers)@,
        key_name((FieldKey::Ciphers)@) == "Ciphers"@,
        parse_key("ClearAllForwardings"@) == (FieldKey::ClearAllForwardings)@,
        key_name((FieldKey::ClearAllForwardings)@) == "ClearAllForwardings"@,
        parse_key("Compression"@) == (FieldKey::Compression)@,
        key_name((FieldKey::Compression)@) == "Compression"@,
        parse_key("ConnectionAttempts"@) == (FieldKey::ConnectionAttempts)@,
        key_name((FieldKey::ConnectionAttempts)@) == "ConnectionAttempts"@,
{
    lemma_every_keyword_reads_back();
    reveal_strlit("CanonicalizeMaxDots");
    assert("CanonicalizeMaxDots"@ =~= known_name(10));
    reveal_strlit("CanonicalizePermittedCNAMEs");
    assert("CanonicalizePermittedCNAMEs"@ =~= known_name(11));
    reveal_strlit("CASignatureAlgorithms");
    assert("CASignatureAlgorithms"@ =~= known_name(12));
    reveal_strlit("CertificateFile");
    assert("CertificateFile"@ =~= known_name(13));
    reveal_strlit("ChannelTimeout");
    assert("ChannelTimeout"@ =~= known_name(14));
    reveal_strlit("CheckHostIP");
    assert("CheckHostIP"@ =~= known_name(15));
    reveal_strlit("Ciphers");
    assert("Ciphers"@ =~= known_name(16));
    reveal_strlit("ClearAllForwardings");
    assert("ClearAllForwardings"@ =~= known_name(17));
    reveal_strlit("Compression");
    assert("Compression"@ =~= known_name(18));
    reveal_strlit("ConnectionAttempts");
    assert("ConnectionAttempts"@ =~= known_name(19));
}

/// The names of keywords 20 to 29 of the table.
proof fn lemma_names_2()
    ensures
        parse_key("ConnectTimeout"@) == (FieldKey::ConnectTimeout)@,
        key_name((FieldKey::ConnectTimeout)@) == "ConnectTimeout"@,
        parse_key("ControlMaster"@) == (FieldKey::ControlMaster)@,
        key_name((FieldKey::ControlMaster)@) == "ControlMaster"@,
        parse_key("ControlPath"@) == (FieldKey::ControlPath)@,
        key_name((FieldKey::ControlPath)@) == "ControlPath"@,
        parse_key("ControlPersist"@) == (FieldKey::ControlPersist)@,
        key_name((FieldKey::ControlPersist)@) == "ControlPersist"@,
        parse_key("DynamicForward"@) == (FieldKey::DynamicForward)@,
        key_name((FieldKey::DynamicForward)@) == "DynamicForward"@,
        parse_key("EnableEscapeCommandline"@) == (FieldKey::EnableEscapeCommandline)@,
        key_name((FieldKey::EnableEscapeCommandline)@) == "EnableEscapeCommandline"@,
        parse_key("EnableSSHKeysign"@) == (FieldKey::EnableSSHKeysign)@,
        key_name((FieldKey::EnableSSHKeysign)@) == "EnableSSHKeysign"@,
        parse_key("EscapeChar"@) == (FieldKey::EscapeChar)@,
        key_name((FieldKey::EscapeChar)@) == "EscapeChar"@,
        parse_key("ExitOnForwardFailure"@) == (FieldKey::ExitOnForwardFailure)@,
        key_name((FieldKey::ExitOnForwardFailure)@) == "ExitOnForwardFailure"@,
        parse_key("FingerprintHash"@) == (FieldKey::FingerprintHash)@,
        key_name((FieldKey::FingerprintHash)@) == "FingerprintHash"@,
{
    lemma_every_keyword_reads_back();
    reveal_strlit("ConnectTimeout");
    assert("ConnectTimeout"@ =~= known_name(20));
    reveal_strlit("ControlMaster");
    assert("ControlMaster"@ =~= known_name(21));
    reveal_strlit("ControlPath");
    assert("ControlPath"@ =~= known_name(22));
    reveal_strlit("ControlPersist");
    assert("ControlPersist"@ =~= known_name(23));
    reveal_strlit("DynamicForward");
    assert("DynamicForward"@ =~= known_name(24));
    reveal_strlit("EnableEscapeCommandline");
    assert("EnableEscapeCommandline"@ =~= known_name(25));
    reveal_strlit("EnableSSHKeysign");
    assert("EnableSSHKeysign"@ =~= known_name(26));
    reveal_strlit("EscapeChar");
    assert("EscapeChar"@ =~= known_name(27));
    reveal_strlit("ExitOnForwardFailure");
    assert("ExitOnForwardFailure"@ =~= known_name(28));
    reveal_strlit("FingerprintHash");
    assert("FingerprintHash"@ =~= known_name(29));
}

/// The names of keywords 30 to 39 of the table.
proof fn lemma_names_3()
    ensures
        parse_key("ForkAfterAuthentication"@) == (FieldKey::ForkAfterAuthentication)@,
        key_name((FieldKey::ForkAfterAuthentication)@) == "ForkAfterAuthentication"@,
        parse_key("ForwardAgent"@) == (FieldKey::ForwardAgent)@,
        key_name((FieldKey::ForwardAgent)@) == "ForwardAgent"@,
        parse_key("ForwardX11"@) == (FieldKey::ForwardX11)@,
        key_name((FieldKey::ForwardX11)@) == "ForwardX11"@,
        parse_key("ForwardX11Timeout"@) == (FieldKey::ForwardX11Timeout)@,
        key_name((FieldKey::ForwardX11Timeout)@) == "ForwardX11Timeout"@,
        parse_key("ForwardX11Trusted"@) == (FieldKey::ForwardX11Trusted)@,
        key_name((FieldKey::ForwardX11Trusted)@) == "ForwardX11Trusted"@,
        parse_key("GatewayPorts"@) == (FieldKey::GatewayPorts)@,
        key_name((FieldKey::GatewayPorts)@) == "GatewayPorts"@,
        parse_key("GlobalKnownHostsFile"@) == (FieldKey::GlobalKnownHostsFile)@,
        key_name((FieldKey::GlobalKnownHostsFile)@) == "GlobalKnownHostsFile"@,
        parse_key("GSSAPIAuthentication"@) == (FieldKey::GSSAPIAuthentication)@,
        key_name((FieldKey::GSSAPIAuthentication)@) == "GSSAPIAuthentication"@,
        parse_key("GSSAPIDelegateCredentials"@) == (FieldKey::GSSAPIDelegateCredentials)@,
        key_name((FieldKey::GSSAPIDelegateCredentials)@) == "GSSAPIDelegateCredentials"@,
        parse_key("HashKnownHosts"@) == (FieldKey::HashKnownHosts)@,
        key_name((FieldKey::HashKnownHosts)@) == "HashKnownHosts"@,
{
    lemma_every_keyword_reads_back();
    reveal_strlit("ForkAfterAuthentication");
    assert("ForkAfterAuthentication"@ =~= known_name(30));
    reveal_strlit("ForwardAgent");
    assert("ForwardAgent"@ =~= known_name(31));
    reveal_strlit("ForwardX11");
    assert("ForwardX11"@ =~= known_name(32));
    reveal_strlit("ForwardX11Timeout");
    assert("ForwardX11Timeout"@ =~= known_name(33));
    reveal_strlit("ForwardX11Trusted");
    assert("ForwardX11Trusted"@ =~= known_name(34));
    reveal_strlit("GatewayPorts");
    assert("GatewayPorts"@ =~= known_name(35));
    reveal_strlit("GlobalKnownHostsFile");
    assert("GlobalKnownHostsFile"@ =~= known_name(36));
    reveal_strlit("GSSAPIAuthentication");
    assert("GSSAPIAuthentication"@ =~= known_name(37));
    reveal_strlit("GSSAPIDelegateCredentials");
    assert("GSSAPIDelegateCredentials"@ =~= known_name(38));
    reveal_strlit("HashKnownHosts");
    assert("HashKnownHosts"@ =~= known_name(39));
}

/// The names of keywords 40 to 49 of the table.
proof fn lemma_names_4()
    ensures
        parse_key("HostbasedAcceptedAlgorithms"@) == (FieldKey::HostbasedAcceptedAlgorithms)@,
        key_name((FieldKey::HostbasedAcceptedAlgorithms)@) == "HostbasedAcceptedAlgorithms"@,
        parse_key("HostbasedAuthentication"@) == (FieldKey::HostbasedAuthentication)@,
        key_name((FieldKey::HostbasedAuthentication)@) == "HostbasedAuthentication"@,
        parse_key("HostKeyAlgorithms"@) == (FieldKey::HostKeyAlgorithms)@,
        key_name((FieldKey::HostKeyAlgorithms)@) == "HostKeyAlgorithms"@,
        parse_key("HostKeyAlias"@) == (FieldKey::HostKeyAlias)@,
        key_name((FieldKey::HostKeyAlias)@) == "HostKeyAlias"@,
        parse_key("Hostname"@) == (FieldKey::Hostname)@,
        key_name((FieldKey::Hostname)@) == "Hostname"@,
        parse_key("IdentitiesOnly"@) == (FieldKey::IdentitiesOnly)@,
        key_name((FieldKey::IdentitiesOnly)@) == "IdentitiesOnly"@,
        parse_key("IdentityAgent"@) == (FieldKey::IdentityAgent)@,
        key_name((FieldKey::IdentityAgent)@) == "IdentityAgent"@,
        parse_key("IdentityFile"@) == (FieldKey::IdentityFile)@,
        key_name((FieldKey::IdentityFile)@) == "IdentityFile"@,
        parse_key("IgnoreUnknown"@) == (FieldKey::IgnoreUnknown)@,
        key_name((FieldKey::IgnoreUnknown)@) == "IgnoreUnknown"@,
        parse_key("Include"@) == (FieldKey::Include)@,
        key_name((FieldKey::Include)@) == "Include"@,
{
    lemma_every_keyword_reads_back();
    reveal_strlit("HostbasedAcceptedAlgorithms");
    assert("HostbasedAcceptedAlgorithms"@ =~= known_name(40));
    reveal_strlit("HostbasedAuthentication");
    assert("HostbasedAuthentication"@ =~= known_name(41));
    reveal_strlit("HostKeyAlgorithms");
    assert("HostKeyAlgorithms"@ =~= known_name(42));
    reveal_strlit("HostKeyAlias");
    assert("HostKeyAlias"@ =~= known_name(43));
    reveal_strlit("Hostname");
    assert("Hostname"@ =~= known_name(44));
    reveal_strlit("IdentitiesOnly");
    assert("IdentitiesOnly"@ =~= known_name(45));
    reveal_strlit("IdentityAgent");
    assert("IdentityAgent"@ =~= known_name(46));
    reveal_strlit("IdentityFile");
    assert("IdentityFile"@ =~= known_name(47));
    reveal_strlit("IgnoreUnknown");
    assert("IgnoreUnknown"@ =~= known_name(48));
    reveal_strlit("Include");
    assert("Include"@ =~= known_name(49));
}

/// The names of keywords 50 to 59 of the table.
proof fn lemma_names_5()
    ensures
        parse_key("IPQoS"@) == (FieldKey::IPQoS)@,
        key_name((FieldKey::IPQoS)@) == "IPQoS"@,
        parse_key("KbdInteractiveAuthentication"@) == (FieldKey::KbdInteractiveAuthentication)@,
        key_name((FieldKey::KbdInteractiveAuthentication)@) == "KbdInteractiveAuthentication"@,
        parse_key("KbdInteractiveDevices"@) == (FieldKey::KbdInteractiveDevices)@,
        key_name((FieldKey::KbdInteractiveDevices)@) == "KbdInteractiveDevices"@,
        parse_key("KexAlgorithms"@) == (FieldKey::KexAlgorithms)@,
        key_name((FieldKey::KexAlgorithms)@) == "KexAlgorithms"@,
        parse_key("KnownHostsCommand"@) == (FieldKey::KnownHostsCommand)@,
        key_name((FieldKey::KnownHostsCommand)@) == "KnownHostsCommand"@,
        parse_key("LocalCommand"@) == (FieldKey::LocalCommand)@,
        key_name((FieldKey::LocalCommand)@) == "LocalCommand"@,
        parse_key("LocalForward"@) == (FieldKey::LocalForward)@,
        key_name((FieldKey::LocalForward)@) == "LocalForward"@,
        parse_key("LogLevel"@) == (FieldKey::LogLevel)@,
        key_name((FieldKey::LogLevel)@) == "LogLevel"@,
        parse_key("LogVerbose"@) == (FieldKey::LogVerbose)@,
        key_name((FieldKey::LogVerbose)@) == "LogVerbose"@,
        parse_key("MACs"@) == (FieldKey::MACs)@,
        key_name((FieldKey::MACs)@) == "MACs"@,
{
    lemma_every_keyword_reads_back();
    reveal_strlit("IPQoS");
    assert("IPQoS"@ =~= known_name(50));
    reveal_strlit("KbdInteractiveAuthentication");
    assert("KbdInteractiveAuthentication"@ =~= known_name(51));
    reveal_strlit("KbdInteractiveDevices");
    assert("KbdInteractiveDevices"@ =~= known_name(52));
    reveal_strlit("KexAlgorithms");
    assert("KexAlgorithms"@ =~= known_name(53));
    reveal_strlit("KnownHostsCommand");
    assert("KnownHostsCommand"@ =~= known_name(54));
    reveal_strlit("LocalCommand");
    assert("LocalCommand"@ =~= known_name(55));
    reveal_strlit("LocalForward");
    assert("LocalForward"@ =~= known_name(56));
    reveal_strlit("LogLevel");
    assert("LogLevel"@ =~= known_name(57));
    reveal_strlit("LogVerbose");
    assert("LogVerbose"@ =~= known_name(58));
    reveal_strlit("MACs");
    assert("MACs"@ =~= known_name(59));
}

/// The names of keywords 60 to 69 of the table.
proof fn lemma_names_6()
    ensures
        parse_key("NoHostAuthenticationForLocalhost"@) == (FieldKey::NoHostAuthenticationForLocalhost)@,
        key_name((FieldKey::NoHostAuthenticationForLocalhost)@) == "NoHostAuthenticationForLocalhost"@,
        parse_key("NumberOfPasswordPrompts"@) == (FieldKey::NumberOfPasswordPrompts)@,
        key_name((FieldKey::NumberOfPasswordPrompts)@) == "NumberOfPasswordPrompts"@,
        parse_key("ObscureKeystrokeTiming"@) == (FieldKey::ObscureKeystrokeTiming)@,
        key_name((FieldKey::ObscureKeystrokeTiming)@) == "ObscureKeystrokeTiming"@,
        parse_key("PasswordAuthentication"@) == (FieldKey::PasswordAuthentication)@,
        key_name((FieldKey::PasswordAuthentication)@) == "PasswordAuthentication"@,
        parse_key("PermitLocalCommand"@) == (FieldKey::PermitLocalCommand)@,
        key_name((FieldKey::PermitLocalCommand)@) == "PermitLocalCommand"@,
        parse_key("PermitRemoteOpen"@) == (FieldKey::PermitRemoteOpen)@,
        key_name((FieldKey::PermitRemoteOpen)@) == "PermitRemoteOpen"@,
        parse_key("PKCS11Provider"@) == (FieldKey::PKCS11Provider)@,
        key_name((FieldKey::PKCS11Provider)@) == "PKCS11Provider"@,
        parse_key("Port"@) == (FieldKey::Port)@,
        key_name((FieldKey::Port)@) == "Port"@,
        parse_key("PreferredAuthentications"@) == (FieldKey::PreferredAuthentications)@,
        key_name((FieldKey::PreferredAuthentications)@) == "PreferredAuthentications"@,
        parse_key("ProxyCommand"@) == (FieldKey::ProxyCommand)@,
        key_name((FieldKey::ProxyCommand)@) == "ProxyCommand"@,
{
    lemma_every_keyword_reads_back();
    reveal_strlit("NoHostAuthenticationForLocalhost");
    assert("NoHostAuthenticationForLocalhost"@ =~= known_name(60));
    reveal_strlit("NumberOfPasswordPrompts");
    assert("NumberOfPasswordPrompts"@ =~= known_name(61));
    reveal_strlit("ObscureKeystrokeTiming");
    assert("ObscureKeystrokeTiming"@ =~= known_name(62));
    reveal_strlit("PasswordAuthentication");
    assert("PasswordAuthentication"@ =~= known_name(63));
    reveal_strlit("PermitLocalCommand");
    assert("PermitLocalCommand"@ =~= known_name(64));
    reveal_strlit("PermitRemoteOpen");
    assert("PermitRemoteOpen"@ =~= known_name(65));
    reveal_strlit("PKCS11Provider");
    assert("PKCS11Provider"@ =~= known_name(66));
    reveal_strlit("Port");
    assert("Port"@ =~= known_name(67));
    reveal_strlit("PreferredAuthentications");
    assert("PreferredAuthentications"@ =~= known_name(68));
    reveal_strlit("ProxyCommand");
    assert("ProxyCommand"@ =~= known_name(69));
}

/// The names of keywords 70 to 79 of the table.
proof fn lemma_names_7()
    ensures
        parse_key("ProxyJump"@) == (FieldKey::ProxyJump)@,
        key_name((FieldKey::ProxyJump)@) == "ProxyJump"@,
        parse_key("ProxyUseFdpass"@) == (FieldKey::ProxyUseFdpass)@,
        key_name((FieldKey::ProxyUseFdpass)@) == "ProxyUseFdpass"@,
        parse_key("PubkeyAcceptedAlgorithms"@) == (FieldKey::PubkeyAcceptedAlgorithms)@,
        key_name((FieldKey::PubkeyAcceptedAlgorithms)@) == "PubkeyAcceptedAlgorithms"@,
        parse_key("PubkeyAuthentication"@) == (FieldKey::PubkeyAuthentication)@,
        key_name((FieldKey::PubkeyAuthentication)@) == "PubkeyAuthentication"@,
        parse_key("RekeyLimit"@) == (FieldKey::RekeyLimit)@,
        key_name((FieldKey::RekeyLimit)@) == "RekeyLimit"@,
        parse_key("RemoteCommand"@) == (FieldKey::RemoteCommand)@,
        key_name((FieldKey::RemoteCommand)@) == "RemoteCommand"@,
        parse_key("RemoteForward"@) == (FieldKey::RemoteForward)@,
        key_name((FieldKey::RemoteForward)@) == "RemoteForward"@,
        parse_key("RequestTTY"@) == (FieldKey::RequestTTY)@,
        key_name((FieldKey::RequestTTY)@) == "RequestTTY"@,
        parse_key("RequiredRSASize"@) == (FieldKey::RequiredRSASize)@,
        key_name((FieldKey::RequiredRSASize)@) == "RequiredRSASize"@,
        parse_key("RevokedHostKeys"@) == (FieldKey::RevokedHostKeys)@,
        key_name((FieldKey::RevokedHostKeys)@) == "RevokedHostKeys"@,
{
    lemma_every_keyword_reads_back();
    reveal_strlit("ProxyJump");
    assert("ProxyJump"@ =~= known_name(70));
    reveal_strlit("ProxyUseFdpass");
    assert("ProxyUseFdpass"@ =~= known_name(71));
    reveal_strlit("PubkeyAcceptedAlgorithms");
    assert("PubkeyAcceptedAlgorithms"@ =~= known_name(72));
    reveal_strlit("PubkeyAuthentication");
    assert("PubkeyAuthentication"@ =~= known_name(73));
    reveal_strlit("RekeyLimit");
    assert("RekeyLimit"@ =~= known_name(74));
    reveal_strlit("RemoteCommand");
    assert("RemoteCommand"@ =~= known_name(75));
    reveal_strlit("RemoteForward");
    assert("RemoteForward"@ =~= known_name(76));
    reveal_strlit("RequestTTY");
    assert("RequestTTY"@ =~= known_name(77));
    reveal_strlit("RequiredRSASize");
    assert("RequiredRSASize"@ =~= known_name(78));
    reveal_strlit("RevokedHostKeys");
    assert("RevokedHostKeys"@ =~= known_name(79));
}

/// The names of keywords 80 to 89 of the table.
proof fn lemma_names_8()
    ensures
        parse_key("SecurityKeyProvider"@) == (FieldKey::SecurityKeyProvider)@,
        key_name((FieldKey::SecurityKeyProvider)@) == "SecurityKeyProvider"@,
        parse_key("SendEnv"@) == (FieldKey::SendEnv)@,
        key_name((FieldKey::SendEnv)@) == "SendEnv"@,
        parse_key("ServerAliveCountMax"@) == (FieldKey::ServerAliveCountMax)@,
        key_name((FieldKey::ServerAliveCountMax)@) == "ServerAliveCountMax"@,
        parse_key("ServerAliveInterval"@) == (FieldKey::ServerAliveInterval)@,
        key_name((FieldKey::ServerAliveInterval)@) == "ServerAliveInterval"@,
        parse_key("SessionType"@) == (FieldKey::SessionType)@,
        key_name((FieldKey::SessionType)@) == "SessionType"@,
        parse_key("SetEnv"@) == (FieldKey::SetEnv)@,
        key_name((FieldKey::SetEnv)@) == "SetEnv"@,
        parse_key("StdinNull"@) == (FieldKey::StdinNull)@,
        key_name((FieldKey::StdinNull)@) == "StdinNull"@,
        parse_key("StreamLocalBindMask"@) == (FieldKey::StreamLocalBindMask)@,
        key_name((FieldKey::StreamLocalBindMask)@) == "StreamLocalBindMask"@,
        parse_key("StreamLocalBindUnlink"@) == (FieldKey::StreamLocalBindUnlink)@,
        key_name((FieldKey::StreamLocalBindUnlink)@) == "StreamLocalBindUnlink"@,
        parse_key("StrictHostKeyChecking"@) == (FieldKey::StrictHostKeyChecking)@,
        key_name((FieldKey::StrictHostKeyChecking)@) == "StrictHostKeyChecking"@,
{
    lemma_every_keyword_reads_back();
    reveal_strlit("SecurityKeyProvider");
    assert("SecurityKeyProvider"@ =~= known_name(80));
    reveal_strlit("SendEnv");
    assert("SendEnv"@ =~= known_name(81));
    reveal_strlit("ServerAliveCountMax");
    assert("ServerAliveCountMax"@ =~= known_name(82));
    reveal_strlit("ServerAliveInterval");
    assert("ServerAliveInterval"@ =~= known_name(83));
    reveal_strlit("SessionType");
    assert("SessionType"@ =~= known_name(84));
    reveal_strlit("SetEnv");
    assert("SetEnv"@ =~= known_name(85));
    reveal_strlit("StdinNull");
    assert("StdinNull"@ =~= known_name(86));
    reveal_strlit("StreamLocalBindMask");
    assert("StreamLocalBindMask"@ =~= known_name(87));
    reveal_strlit("StreamLocalBindUnlink");
    assert("StreamLocalBindUnlink"@ =~= known_name(88));
    reveal_strlit("StrictHostKeyChecking");
    assert("StrictHostKeyChecking"@ =~= known_name(89));
}

/// The names of keywords 90 to 99 of the table.
proof fn lemma_names_9()
    ensures
        parse_key("SyslogFacility"@) == (FieldKey::SyslogFacility)@,
        key_name((FieldKey::SyslogFacility)@) == "SyslogFacility"@,
        parse_key("TCPKeepAlive"@) == (FieldKey::TCPKeepAlive)@,
        key_name((FieldKey::TCPKeepAlive)@) == "TCPKeepAlive"@,
        parse_key("Tag"@) == (FieldKey::Tag)@,
        key_name((FieldKey::Tag)@) == "Tag"@,
        parse_key("Tunnel"@) == (FieldKey::Tunnel)@,
        key_name((FieldKey::Tunnel)@) == "Tunnel"@,
        parse_key("TunnelDevice"@) == (FieldKey::TunnelDevice)@,
        key_name((FieldKey::TunnelDevice)@) == "TunnelDevice"@,
        parse_key("UpdateHostKeys"@) == (FieldKey::UpdateHostKeys)@,
        key_name((FieldKey::UpdateHostKeys)@) == "UpdateHostKeys"@,
        parse_key("User"@) == (FieldKey::User)@,
        key_name((FieldKey::User)@) == "User"@,
        parse_key("UserKnownHostsFile"@) == (FieldKey::UserKnownHostsFile)@,
        key_name((FieldKey::UserKnownHostsFile)@) == "UserKnownHostsFile"@,
        parse_key("VerifyHostKeyDNS"@) == (FieldKey::VerifyHostKeyDNS)@,
        key_name((FieldKey::VerifyHostKeyDNS)@) == "VerifyHostKeyDNS"@,
        parse_key("VisualHostKey"@) == (FieldKey::VisualHostKey)@,
        key_name((FieldKey::VisualHostKey)@) == "VisualHostKey"@,
{
    lemma_every_keyword_reads_back();
    reveal_strlit("SyslogFacility");
    assert("SyslogFacility"@ =~= known_name(90));
    reveal_strlit("TCPKeepAlive");
    assert("TCPKeepAlive"@ =~= known_name(91));
    reveal_strlit("Tag");
    assert("Tag"@ =~= known_name(92));
    reveal_strlit("Tunnel");
    assert("Tunnel"@ =~= known_name(93));
    reveal_strlit("TunnelDevice");
    assert("TunnelDevice"@ =~= known_name(94));
    reveal_strlit("UpdateHostKeys");
    assert("UpdateHostKeys"@ =~= known_name(95));
    reveal_strlit("User");
    assert("User"@ =~= known_name(96));
    reveal_strlit("UserKnownHostsFile");
    assert("UserKnownHostsFile"@ =~= known_name(97));
    reveal_strlit("VerifyHostKeyDNS");
    assert("VerifyHostKeyDNS"@ =~= known_name(98));
    reveal_strlit("VisualHostKey");
    assert("VisualHostKey"@ =~= known_name(99));
}

/// The names of keywords 100 to 100 of the table.
proof fn lemma_names_10()
    ensures
        parse_key("XAuthLocation"@) == (FieldKey::XAuthLocation)@,
        key_name((FieldKey::XAuthLocation)@) == "XAuthLocation"@,
{
    lemma_every_keyword_reads_back();
    reveal_strlit("XAuthLocation");
    assert("XAuthLocation"@ =~= known_name(100));
}

/// Each keyword of ssh_config(5) is read from its name, and written with
/// it.
pub proof fn lemma_keyword_names()
    ensures
        parse_key("Host"@) == (FieldKey::Host)@,
        key_name((FieldKey::Host)@) == "Host"@,
        parse_key("Match"@) == (FieldKey::Match)@,
        key_name((FieldKey::Match)@) == "Match"@,
        parse_key("AddKeysToAgent"@) == (FieldKey::AddKeysToAgent)@,
        key_name((FieldKey::AddKeysToAgent)@) == "AddKeysToAgent"@,
        parse_key("AddressFamily"@) == (FieldKey::AddressFamily)@,
        key_name((FieldKey::AddressFamily)@) == "AddressFamily"@,
        parse_key("BatchMode"@) == (FieldKey::BatchMode)@,
        key_name((FieldKey::BatchMode)@) == "BatchMode"@,
        parse_key("BindAddress"@) == (FieldKey::BindAddress)@,
        key_name((FieldKey::BindAddress)@) == "BindAddress"@,
        parse_key("BindInterface"@) == (FieldKey::BindInterface)@,
        key_name((FieldKey::BindInterface)@) == "BindInterface"@,
        parse_key("CanonicalDomains"@) == (FieldKey::CanonicalDomains)@,
        key_name((FieldKey::CanonicalDomains)@) == "CanonicalDomains"@,
        parse_key("CanonicalizeFallbackLocal"@) == (FieldKey::CanonicalizeFallbackLocal)@,
        key_name((FieldKey::CanonicalizeFallbackLocal)@) == "CanonicalizeFallbackLocal"@,
        parse_key("CanonicalizeHostname"@) == (FieldKey::CanonicalizeHostname)@,
        key_name((FieldKey::CanonicalizeHostname)@) == "CanonicalizeHostname"@,
        parse_key("CanonicalizeMaxDots"@) == (FieldKey::CanonicalizeMaxDots)@,
        key_name((FieldKey::CanonicalizeMaxDots)@) == "CanonicalizeMaxDots"@,
        parse_key("CanonicalizePermittedCNAMEs"@) == (FieldKey::CanonicalizePermittedCNAMEs)@,
        key_name((FieldKey::CanonicalizePermittedCNAMEs)@) == "CanonicalizePermittedCNAMEs"@,
        parse_key("CASignatureAlgorithms"@) == (FieldKey::CASignatureAlgorithms)@,
        key_name((FieldKey::CASignatureAlgorithms)@) == "CASignatureAlgorithms"@,
        parse_key("CertificateFile"@) == (FieldKey::CertificateFile)@,
        key_name((FieldKey::CertificateFile)@) == "CertificateFile"@,
        parse_key("ChannelTimeout"@) == (FieldKey::ChannelTimeout)@,
        key_name((FieldKey::ChannelTimeout)@) == "ChannelTimeout"@,
        parse_key("CheckHostIP"@) == (FieldKey::CheckHostIP)@,
        key_name((FieldKey::CheckHostIP)@) == "CheckHostIP"@,
        parse_key("Ciphers"@) == (FieldKey::Ciphers)@,
        key_name((FieldKey::Ciphers)@) == "Ciphers"@,
        parse_key("ClearAllForwardings"@) == (FieldKey::ClearAllForwardings)@,
        key_name((FieldKey::ClearAllForwardings)@) == "ClearAllForwardings"@,
        parse_key("Compression"@) == (FieldKey::Compression)@,
        key_name((FieldKey::Compression)@) == "Compression"@,
        parse_key("ConnectionAttempts"@) == (FieldKey::ConnectionAttempts)@,
        key_name((FieldKey::ConnectionAttempts)@) == "ConnectionAttempts"@,
        parse_key("ConnectTimeout"@) == (FieldKey::ConnectTimeout)@,
        key_name((FieldKey::ConnectTimeout)@) == "ConnectTimeout"@,
        parse_key("ControlMaster"@) == (FieldKey::ControlMaster)@,
        key_name((FieldKey::ControlMaster)@) == "ControlMaster"@,
        parse_key("ControlPath"@) == (FieldKey::ControlPath)@,
        key_name((FieldKey::ControlPath)@) == "ControlPath"@,
        parse_key("ControlPersist"@) == (FieldKey::ControlPersist)@,
        key_name((FieldKey::ControlPersist)@) == "ControlPersist"@,
        parse_key("DynamicForward"@) == (FieldKey::DynamicForward)@,
        key_name((FieldKey::DynamicForward)@) == "DynamicForward"@,
        parse_key("EnableEscapeCommandline"@) == (FieldKey::EnableEscapeCommandline)@,
        key_name((FieldKey::EnableEscapeCommandline)@) == "EnableEscapeCommandline"@,
        parse_key("EnableSSHKeysign"@) == (FieldKey::EnableSSHKeysign)@,
        key_name((FieldKey::EnableSSHKeysign)@) == "EnableSSHKeysign"@,
        parse_key("EscapeChar"@) == (FieldKey::EscapeChar)@,
        key_name((FieldKey::EscapeChar)@) == "EscapeChar"@,
        parse_key("ExitOnForwardFailure"@) == (FieldKey::ExitOnForwardFailure)@,
        key_name((FieldKey::ExitOnForwardFailure)@) == "ExitOnForwardFailure"@,
        parse_key("FingerprintHash"@) == (FieldKey::FingerprintHash)@,
        key_name((FieldKey::FingerprintHash)@) == "FingerprintHash"@,
        parse_key("ForkAfterAuthentication"@) == (FieldKey::ForkAfterAuthentication)@,
        key_name((FieldKey::ForkAfterAuthentication)@) == "ForkAfterAuthentication"@,
        parse_key("ForwardAgent"@) == (FieldKey::ForwardAgent)@,
        key_name((FieldKey::ForwardAgent)@) == "ForwardAgent"@,
        parse_key("ForwardX11"@) == (FieldKey::ForwardX11)@,
        key_name((FieldKey::ForwardX11)@) == "ForwardX11"@,
        parse_key("ForwardX11Timeout"@) == (FieldKey::ForwardX11Timeout)@,
        key_name((FieldKey::ForwardX11Timeout)@) == "ForwardX11Timeout"@,
        parse_key("ForwardX11Trusted"@) == (FieldKey::ForwardX11Trusted)@,
        key_name((FieldKey::ForwardX11Trusted)@) == "ForwardX11Trusted"@,
        parse_key("GatewayPorts"@) == (FieldKey::GatewayPorts)@,
        key_name((FieldKey::GatewayPorts)@) == "GatewayPorts"@,
        parse_key("GlobalKnownHostsFile"@) == (FieldKey::GlobalKnownHostsFile)@,
        key_name((FieldKey::GlobalKnownHostsFile)@) == "GlobalKnownHostsFile"@,
        parse_key("GSSAPIAuthentication"@) == (FieldKey::GSSAPIAuthentication)@,
        key_name((FieldKey::GSSAPIAuthentication)@) == "GSSAPIAuthentication"@,
        parse_key("GSSAPIDelegateCredentials"@) == (FieldKey::GSSAPIDelegateCredentials)@,
        key_name((FieldKey::GSSAPIDelegateCredentials)@) == "GSSAPIDelegateCredentials"@,
        parse_key("HashKnownHosts"@) == (FieldKey::HashKnownHosts)@,
        key_name((FieldKey::HashKnownHosts)@) == "HashKnownHosts"@,
        parse_key("HostbasedAcceptedAlgorithms"@) == (FieldKey::HostbasedAcceptedAlgorithms)@,
        key_name((FieldKey::HostbasedAcceptedAlgorithms)@) == "HostbasedAcceptedAlgorithms"@,
        parse_key("HostbasedAuthentication"@) == (FieldKey::HostbasedAuthentication)@,
        key_name((FieldKey::HostbasedAuthentication)@) == "HostbasedAuthentication"@,
        parse_key("HostKeyAlgorithms"@) == (FieldKey::HostKeyAlgorithms)@,
        key_name((FieldKey::HostKeyAlgorithms)@) == "HostKeyAlgorithms"@,
        parse_key("HostKeyAlias"@) == (FieldKey::HostKeyAlias)@,
        key_name((FieldKey::HostKeyAlias)@) == "HostKeyAlias"@,
        parse_key("Hostname"@) == (FieldKey::Hostname)@,
        key_name((FieldKey::Hostname)@) == "Hostname"@,
        parse_key("IdentitiesOnly"@) == (FieldKey::IdentitiesOnly)@,
        key_name((FieldKey::IdentitiesOnly)@) == "IdentitiesOnly"@,
        parse_key("IdentityAgent"@) == (FieldKey::IdentityAgent)@,
        key_name((FieldKey::IdentityAgent)@) == "IdentityAgent"@,
        parse_key("IdentityFile"@) == (FieldKey::IdentityFile)@,
        key_name((FieldKey::IdentityFile)@) == "IdentityFile"@,
        parse_key("IgnoreUnknown"@) == (FieldKey::IgnoreUnknown)@,
        key_name((FieldKey::IgnoreUnknown)@) == "IgnoreUnknown"@,
        parse_key("Include"@) == (FieldKey::Include)@,
        key_name((FieldKey::Include)@) == "Include"@,
        parse_key("IPQoS"@) == (FieldKey::IPQoS)@,
        key_name((FieldKey::IPQoS)@) == "IPQoS"@,
        parse_key("KbdInteractiveAuthentication"@) == (FieldKey::KbdInteractiveAuthentication)@,
        key_name((FieldKey::KbdInteractiveAuthentication)@) == "KbdInteractiveAuthentication"@,
        parse_key("KbdInteractiveDevices"@) == (FieldKey::KbdInteractiveDevices)@,
        key_name((FieldKey::KbdInteractiveDevices)@) == "KbdInteractiveDevices"@,
        parse_key("KexAlgorithms"@) == (FieldKey::KexAlgorithms)@,
        key_name((FieldKey::KexAlgorithms)@) == "KexAlgorithms"@,
        parse_key("KnownHostsCommand"@) == (FieldKey::KnownHostsCommand)@,
        key_name((FieldKey::KnownHostsCommand)@) == "KnownHostsCommand"@,
        parse_key("LocalCommand"@) == (FieldKey::LocalCommand)@,
        key_name((FieldKey::LocalCommand)@) == "LocalCommand"@,
        parse_key("LocalForward"@) == (FieldKey::LocalForward)@,
        key_name((FieldKey::LocalForward)@) == "LocalForward"@,
        parse_key("LogLevel"@) == (FieldKey::LogLevel)@,
        key_name((FieldKey::LogLevel)@) == "LogLevel"@,
        parse_key("LogVerbose"@) == (FieldKey::LogVerbose)@,
        key_name((FieldKey::LogVerbose)@) == "LogVerbose"@,
        parse_key("MACs"@) == (FieldKey::MACs)@,
        key_name((FieldKey::MACs)@) == "MACs"@,
        parse_key("NoHostAuthenticationForLocalhost"@) == (FieldKey::NoHostAuthenticationForLocalhost)@,
        key_name((FieldKey::NoHostAuthenticationForLocalhost)@) == "NoHostAuthenticationForLocalhost"@,
        parse_key("NumberOfPasswordPrompts"@) == (FieldKey::NumberOfPasswordPrompts)@,
        key_name((FieldKey::NumberOfPasswordPrompts)@) == "NumberOfPasswordPrompts"@,
        parse_key("ObscureKeystrokeTiming"@) == (FieldKey::ObscureKeystrokeTiming)@,
        key_name((FieldKey::ObscureKeystrokeTiming)@) == "ObscureKeystrokeTiming"@,
        parse_key("PasswordAuthentication"@) == (FieldKey::PasswordAuthentication)@,
        key_name((FieldKey::PasswordAuthentication)@) == "PasswordAuthentication"@,
        parse_key("PermitLocalCommand"@) == (FieldKey::PermitLocalCommand)@,
        key_name((FieldKey::PermitLocalCommand)@) == "PermitLocalCommand"@,
        parse_key("PermitRemoteOpen"@) == (FieldKey::PermitRemoteOpen)@,
        key_name((FieldKey::PermitRemoteOpen)@) == "PermitRemoteOpen"@,
        parse_key("PKCS11Provider"@) == (FieldKey::PKCS11Provider)@,
        key_name((FieldKey::PKCS11Provider)@) == "PKCS11Provider"@,
        parse_key("Port"@) == (FieldKey::Port)@,
        key_name((FieldKey::Port)@) == "Port"@,
        parse_key("PreferredAuthentications"@) == (FieldKey::PreferredAuthentications)@,
        key_name((FieldKey::PreferredAuthentications)@) == "PreferredAuthentications"@,
        parse_key("ProxyCommand"@) == (FieldKey::ProxyCommand)@,
        key_name((FieldKey::ProxyCommand)@) == "ProxyCommand"@,
        parse_key("ProxyJump"@) == (FieldKey::ProxyJump)@,
        key_name((FieldKey::ProxyJump)@) == "ProxyJump"@,
        parse_key("ProxyUseFdpass"@) == (FieldKey::ProxyUseFdpass)@,
        key_name((FieldKey::ProxyUseFdpass)@) == "ProxyUseFdpass"@,
        parse_key("PubkeyAcceptedAlgorithms"@) == (FieldKey::PubkeyAcceptedAlgorithms)@,
        key_name((FieldKey::PubkeyAcceptedAlgorithms)@) == "PubkeyAcceptedAlgorithms"@,
        parse_key("PubkeyAuthentication"@) == (FieldKey::PubkeyAuthentication)@,
        key_name((FieldKey::PubkeyAuthentication)@) == "PubkeyAuthentication"@,
        parse_key("RekeyLimit"@) == (FieldKey::RekeyLimit)@,
        key_name((FieldKey::RekeyLimit)@) == "RekeyLimit"@,
        parse_key("RemoteCommand"@) == (FieldKey::RemoteCommand)@,
        key_name((FieldKey::RemoteCommand)@) == "RemoteCommand"@,
        parse_key("RemoteForward"@) == (FieldKey::RemoteForward)@,
        key_name((FieldKey::RemoteForward)@) == "RemoteForward"@,
        parse_key("RequestTTY"@) == (FieldKey::RequestTTY)@,
        key_name((FieldKey::RequestTTY)@) == "RequestTTY"@,
        parse_key("RequiredRSASize"@) == (FieldKey::RequiredRSASize)@,
        key_name((FieldKey::RequiredRSASize)@) == "RequiredRSASize"@,
        parse_key("RevokedHostKeys"@) == (FieldKey::RevokedHostKeys)@,
        key_name((FieldKey::RevokedHostKeys)@) == "RevokedHostKeys"@,
        parse_key("SecurityKeyProvider"@) == (FieldKey::SecurityKeyProvider)@,
        key_name((FieldKey::SecurityKeyProvider)@) == "SecurityKeyProvider"@,
        parse_key("SendEnv"@) == (FieldKey::SendEnv)@,
        key_name((FieldKey::SendEnv)@) == "SendEnv"@,
        parse_key("ServerAliveCountMax"@) == (FieldKey::ServerAliveCountMax)@,
        key_name((FieldKey::ServerAliveCountMax)@) == "ServerAliveCountMax"@,
        parse_key("ServerAliveInterval"@) == (FieldKey::ServerAliveInterval)@,
        key_name((FieldKey::ServerAliveInterval)@) == "ServerAliveInterval"@,
        parse_key("SessionType"@) == (FieldKey::SessionType)@,
        key_name((FieldKey::SessionType)@) == "SessionType"@,
        parse_key("SetEnv"@) == (FieldKey::SetEnv)@,
        key_name((FieldKey::SetEnv)@) == "SetEnv"@,
        parse_key("StdinNull"@) == (FieldKey::StdinNull)@,
        key_name((FieldKey::StdinNull)@) == "StdinNull"@,
        parse_key("StreamLocalBindMask"@) == (FieldKey::StreamLocalBindMask)@,
        key_name((FieldKey::StreamLocalBindMask)@) == "StreamLocalBindMask"@,
        parse_key("StreamLocalBindUnlink"@) == (FieldKey::StreamLocalBindUnlink)@,
        key_name((FieldKey::StreamLocalBindUnlink)@) == "StreamLocalBindUnlink"@,
        parse_key("StrictHostKeyChecking"@) == (FieldKey::StrictHostKeyChecking)@,
        key_name((FieldKey::StrictHostKeyChecking)@) == "StrictHostKeyChecking"@,
        parse_key("SyslogFacility"@) == (FieldKey::SyslogFacility)@,
        key_name((FieldKey::SyslogFacility)@) == "SyslogFacility"@,
        parse_key("TCPKeepAlive"@) == (FieldKey::TCPKeepAlive)@,
        key_name((FieldKey::TCPKeepAlive)@) == "TCPKeepAlive"@,
        parse_key("Tag"@) == (FieldKey::Tag)@,
        key_name((FieldKey::Tag)@) == "Tag"@,
        parse_key("Tunnel"@) == (FieldKey::Tunnel)@,
        key_name((FieldKey::Tunnel)@) == "Tunnel"@,
        parse_key("TunnelDevice"@) == (FieldKey::TunnelDevice)@,
        key_name((FieldKey::TunnelDevice)@) == "TunnelDevice"@,
        parse_key("UpdateHostKeys"@) == (FieldKey::UpdateHostKeys)@,
        key_name((FieldKey::UpdateHostKeys)@) == "UpdateHostKeys"@,
        parse_key("User"@) == (FieldKey::User)@,
        key_name((FieldKey::User)@) == "User"@,
        parse_key("UserKnownHostsFile"@) == (FieldKey::UserKnownHostsFile)@,
        key_name((FieldKey::UserKnownHostsFile)@) == "UserKnownHostsFile"@,
        parse_key("VerifyHostKeyDNS"@) == (FieldKey::VerifyHostKeyDNS)@,
        key_name((FieldKey::VerifyHostKeyDNS)@) == "VerifyHostKeyDNS"@,
        parse_key("VisualHostKey"@) == (FieldKey::VisualHostKey)@,
        key_name((FieldKey::VisualHostKey)@) == "VisualHostKey"@,
        parse_key("XAuthLocation"@) == (FieldKey::XAuthLocation)@,
        key_name((FieldKey::XAuthLocation)@) == "XAuthLocation"@,
{
    lemma_names_0();
    lemma_names_1();
    lemma_names_2();
    lemma_names_3();
    lemma_names_4();
    lemma_names_5();
    lemma_names_6();
    lemma_names_7();
    lemma_names_8();
    lemma_names_9();
    lemma_names_10();
}

/// The keys whose every occurrence counts are exactly `IdentityFile`,
/// `CertificateFile`, `SendEnv`, `SetEnv`, `LocalForward`, `RemoteForward`
/// and `DynamicForward`; every other key keeps its first value.
pub proof fn lemma_cumulative_keys(k: FieldKey)
    ensures
        key_is_cumulative(k@) <==> (k@ == parse_key("IdentityFile"@) || k@ == parse_key(
            "CertificateFile"@,
        ) || k@ == parse_key("SendEnv"@) || k@ == parse_key("SetEnv"@) || k@ == parse_key(
            "LocalForward"@,
        ) || k@ == parse_key("RemoteForward"@) || k@ == parse_key("DynamicForward"@)),
{
    reveal_strlit("IdentityFile");
    assert("IdentityFile"@ =~= known_name(47));
    lemma_keywords_read_back(known_view(47));
    reveal_strlit("CertificateFile");
    assert("CertificateFile"@ =~= known_name(13));
    lemma_keywords_read_back(known_view(13));
    reveal_strlit("SendEnv");
    assert("SendEnv"@ =~= known_name(81));
    lemma_keywords_read_back(known_view(81));
    reveal_strlit("SetEnv");
    assert("SetEnv"@ =~= known_name(85));
    lemma_keywords_read_back(known_view(85));
    reveal_strlit("LocalForward");
    assert("LocalForward"@ =~= known_name(56));
    lemma_keywords_read_back(known_view(56));
    reveal_strlit("RemoteForward");
    assert("RemoteForward"@ =~= known_name(76));
    lemma_keywords_read_back(known_view(76));
    reveal_strlit("DynamicForward");
    assert("DynamicForward"@ =~= known_name(24));
    lemma_keywords_read_back(known_view(24));
}

/// The keys that open a section are exactly `Host` and `Match`.
pub proof fn lemma_selector_keys(k: FieldKey)
    ensures
        key_is_selector(k@) <==> (k@ == parse_key("Host"@) || k@ == parse_key("Match"@)),
{
    reveal_strlit("Host");
    assert("Host"@ =~= known_name(0));
    lemma_keywords_read_back(known_view(0));
    reveal_strlit("Match");
    assert("Match"@ =~= known_name(1));
    lemma_keywords_read_back(known_view(1));
}

/// What [`find_known`] finds, from `a` on, is a keyword at or after `a`
/// whose lower-case spelling is `l`.
proof fn lemma_find_known_found(l: Seq<char>, a: nat)
    ensures
        find_known(l, a) matches Some(i) ==> a <= i < KNOWN_KEYS && ascii_lower(known_name(i as int))
            == l,
    decreases KNOWN_KEYS - a,
{
    if a < KNOWN_KEYS && ascii_lower(known_name(a as int)) != l {
        lemma_find_known_found(l, a + 1);
    }
}

/// A line opens a section exactly when it is a directive whose key is
/// `host` or `match` in any ASCII case.
pub proof fn lemma_selector_lines(l: LineView)
    ensures
        l.is_selector() <==> (l.kind matches LineKindView::Directive(d) && (ascii_lower(d.key)
            == "host"@ || ascii_lower(d.key) == "match"@)),
{
    reveal_strlit("host");
    reveal_strlit("match");
    assert(ascii_lower(known_name(0)) =~= "host"@) by {
        assert(ascii_lower_char('H') == 'h');
    }
    assert(ascii_lower(known_name(1)) =~= "match"@) by {
        assert(ascii_lower_char('M') == 'm');
    }
    if let LineKindView::Directive(d) = l.kind {
        let t = ascii_lower(d.key);
        lemma_find_known_found(t, 2);
        if t != "host"@ {
            if t != "match"@ {
                assert(ascii_lower(known_name(0)) != t);
                assert(find_known(t, 0) == find_known(t, 1));
                assert(ascii_lower(known_name(1)) != t);
                assert(find_known(t, 1) == find_known(t, 2));
            }
        }
    }
}

} // verus!
