//! What holds of every deployment and every credential: which host a domain names,
//! which base a token goes to, and what a login changes.

use crate::copilot_catalog::CopilotAccountType;
use crate::copilot_enterprise::{
    assigned_base, base_for, base_known, cache_key, default_api_base, deployment_for,
    deployment_named, deployment_record, fault_text, forgotten, hex_text, host_in, host_of,
    next_generation, normal_domain, plan_kind, recorded, rest_base, saved_deployment, sha256,
    tidy_base, without_scheme, BasesView, DeploymentView, DomainFault,
};
use crate::credentials::{
    auth_failed, bases_after_login, is_current, moved_base, relogged, CredentialView,
};
use crate::json::{field, JsonView};
use crate::text::{ascii_lowered, before_any, begins, trimmed, trimmed_end_of, white_space};
use crate::text_laws::{
    law_end_loses_one_character, law_text_is_cut_at_the_first_stop, law_trimmed_text_stays,
};
use vstd::prelude::*;

verus! {

/// Whether a text is a host and nothing else: no scheme, path, query or fragment, no
/// space around it and no dot at its end.
pub open spec fn bare_host(s: Seq<char>) -> bool {
    &&& s.len() > 0
    &&& !white_space(s[0]) && !white_space(s.last())
    &&& s.last() != '.'
    &&& forall|i: int|
        0 <= i < s.len() ==> (#[trigger] s[i]) != '/' && s[i] != '?' && s[i] != '#'
}

proof fn lemma_stops()
    ensures
        forall|c: char| #[trigger] "/?#"@.contains(c) <==> c == '/' || c == '?' || c == '#',
        "https://"@.len() == 8,
        "http://"@.len() == 7,
        "https://"@[6] == '/',
        "http://"@[6] == '/',
{
    reveal_strlit("/?#");
    reveal_strlit("https://");
    reveal_strlit("http://");
    assert("/?#"@[0] == '/' && "/?#"@[1] == '?' && "/?#"@[2] == '#');
}

proof fn lemma_bare_host(s: Seq<char>, tail: Seq<char>)
    requires
        bare_host(s),
        tail.len() > 0 ==> tail[0] == '/' || tail[0] == '?' || tail[0] == '#',
    ensures
        before_any(s + tail, "/?#"@) == s,
        trimmed(s) == s,
        trimmed_end_of(s, '.') == s,
{
    lemma_stops();
    let all = s + tail;
    let cut = before_any(all, "/?#"@);
    law_text_is_cut_at_the_first_stop(all, "/?#"@, s.len() as int);
    if cut.len() < s.len() {
        assert(all[cut.len() as int] == s[cut.len() as int]);
    } else if cut.len() > s.len() {
        assert(all[s.len() as int] == tail[0]);
    }
    assert(cut =~= s) by {
        assert(all.subrange(0, cut.len() as int) == cut);
        assert(all.subrange(0, s.len() as int) =~= s);
    }
    law_trimmed_text_stays(s);
    law_end_loses_one_character(s, '.');
}

/// The host of a web address is what stands between the scheme and the path, in
/// small letters; a bare host is its own.
pub proof fn law_host_of_an_address(host: Seq<char>, tail: Seq<char>)
    requires
        bare_host(host),
        tail.len() > 0 ==> tail[0] == '/' || tail[0] == '?' || tail[0] == '#',
        tail.len() > 0 ==> !white_space(tail.last()),
    ensures
        host_in("https://"@ + host + tail) == ascii_lowered(host),
        host_in("http://"@ + host + tail) == ascii_lowered(host),
        host_in(host) == ascii_lowered(host),
        host_in(host.push('.')) == ascii_lowered(host),
{
    lemma_stops();
    lemma_bare_host(host, tail);
    lemma_bare_host(host, seq![]);
    assert(host + Seq::<char>::empty() =~= host);
    lemma_address("https://"@, host, tail);
    lemma_address("http://"@, host, tail);
    lemma_no_scheme(host);
    // A dot at the end is no part of the host.
    let dotted = host.push('.');
    law_trimmed_text_stays(dotted);
    lemma_no_scheme(dotted);
    lemma_cut_nothing(dotted);
    law_end_loses_one_character(host, '.');
}

proof fn lemma_cut_nothing(s: Seq<char>)
    requires
        forall|i: int| 0 <= i < s.len() ==> (#[trigger] s[i]) != '/' && s[i] != '?' && s[i] != '#',
    ensures
        before_any(s, "/?#"@) == s,
{
    lemma_stops();
    let cut = before_any(s, "/?#"@);
    law_text_is_cut_at_the_first_stop(s, "/?#"@, 0);
    if cut.len() < s.len() {
        assert(s[cut.len() as int] != '/');
    }
    assert(s.subrange(0, s.len() as int) =~= s);
}

proof fn lemma_no_scheme(s: Seq<char>)
    requires
        forall|i: int| 0 <= i < s.len() ==> (#[trigger] s[i]) != '/' && s[i] != '?' && s[i] != '#',
    ensures
        without_scheme(s) == s,
{
    lemma_stops();
    if begins(s, "https://"@) {
        assert(s.subrange(0, 8)[6] == s[6]);
    }
    if begins(s, "http://"@) {
        assert(s.subrange(0, 7)[6] == s[6]);
    }
}

proof fn lemma_address(scheme: Seq<char>, host: Seq<char>, tail: Seq<char>)
    requires
        scheme == "https://"@ || scheme == "http://"@,
        bare_host(host),
        tail.len() > 0 ==> !white_space(tail.last()),
    ensures
        trimmed(scheme + host + tail) == scheme + host + tail,
        without_scheme(scheme + host + tail) == host + tail,
{
    reveal_strlit("https://");
    reveal_strlit("http://");
    let all = scheme + host + tail;
    assert(all[0] == 'h');
    assert(all.last() == if tail.len() > 0 {
        tail.last()
    } else {
        host.last()
    });
    law_trimmed_text_stays(all);
    assert(all.subrange(0, scheme.len() as int) =~= scheme);
    assert(all.skip(scheme.len() as int) =~= host + tail);
    if scheme == "http://"@ {
        if begins(all, "https://"@) {
            assert(all.subrange(0, 8)[4] == all[4]);
        }
    }
}

/// A host is a domain exactly where it has a dot and neither a space, an at sign nor
/// a port. A refusal tells which, and gives the input back.
pub proof fn law_hosts_are_judged(input: Seq<char>)
    requires
        trimmed(input).len() > 0,
    ensures
        ({
            let host = host_in(input);
            let named = host.len() > 0 && host.contains('.') && !host.contains(' ')
                && !host.contains('@');
            &&& named && !host.contains(':') ==> normal_domain(input) == Ok::<
                Seq<char>,
                DomainFault,
            >(host)
            &&& named && host.contains(':') ==> normal_domain(input) == Err::<
                Seq<char>,
                DomainFault,
            >(DomainFault::Port(input))
            &&& !named ==> normal_domain(input) == Err::<Seq<char>, DomainFault>(
                DomainFault::Invalid(input),
            )
        }),
{
}

/// A domain is GitHub's own by two names and an enterprise's by every other; what
/// is no domain is no deployment. A blank is told apart.
pub proof fn law_domains_name_deployments(input: Seq<char>, domain: Seq<char>)
    ensures
        normal_domain(input) == Ok::<Seq<char>, DomainFault>(domain) && (domain == "github.com"@
            || domain == "api.github.com"@) ==> deployment_named(input) == Ok::<
            DeploymentView,
            DomainFault,
        >(DeploymentView::DotCom),
        normal_domain(input) == Ok::<Seq<char>, DomainFault>(domain) && domain != "github.com"@
            && domain != "api.github.com"@ ==> deployment_named(input) == Ok::<
            DeploymentView,
            DomainFault,
        >(DeploymentView::Enterprise(domain)),
        normal_domain(input) matches Err(fault) ==> deployment_named(input) == Err::<
            DeploymentView,
            DomainFault,
        >(fault),
        trimmed(input).len() == 0 ==> deployment_named(input) == Err::<DeploymentView, DomainFault>(
            DomainFault::Empty,
        ),
{
}

/// Each deployment has its own hosts: GitHub's are fixed, and an enterprise's stand
/// under its domain.
pub proof fn law_deployments_have_their_hosts(domain: Seq<char>)
    ensures
        host_of(DeploymentView::DotCom) == "github.com"@,
        default_api_base(DeploymentView::DotCom) == "https://api.githubcopilot.com"@,
        rest_base(DeploymentView::DotCom) == "https://api.github.com"@,
        host_of(DeploymentView::Enterprise(domain)) == domain,
        default_api_base(DeploymentView::Enterprise(domain)) == "https://copilot-api."@ + domain,
        rest_base(DeploymentView::Enterprise(domain)) == "https://api."@ + domain,
{
}

/// A refusal names what was refused.
pub proof fn law_refusals_name_the_input(input: Seq<char>)
    ensures
        fault_text(DomainFault::Empty) == "Enterprise domain must not be empty"@,
        fault_text(DomainFault::Invalid(input)) == "'"@ + input
            + "' is not a valid domain (expected something like 'company.ghe.com')"@,
        fault_text(DomainFault::Port(input))
            == "Enterprise domain must not include a port or scheme: '"@ + input + "'"@,
{
}

/// An override that names a deployment wins over what is on file. One that names
/// none counts as absent, and without either the deployment is GitHub's own.
pub proof fn law_override_wins(over: Seq<char>, saved: Option<Seq<char>>)
    requires
        trimmed(over).len() > 0,
    ensures
        deployment_named(trimmed(over)) matches Ok(deployment) ==> deployment_for(Some(over), saved)
            == deployment,
        deployment_named(trimmed(over)) is Err ==> deployment_for(Some(over), saved)
            == deployment_for(None, saved),
        deployment_for(None, None) == DeploymentView::DotCom,
        saved matches Some(record) ==> (saved_deployment(record) matches Some(deployment)
            ==> deployment_for(None, saved) == deployment),
        saved matches Some(record) ==> (saved_deployment(record) is None ==> deployment_for(
            None,
            saved,
        ) == DeploymentView::DotCom),
{
}

/// The record of an enterprise names its domain; that of GitHub's own names none.
pub proof fn law_record_names_the_domain(domain: Seq<char>)
    ensures
        field(deployment_record(DeploymentView::Enterprise(domain)), "enterprise_domain"@) == Some(
            JsonView::Str(domain),
        ),
        deployment_record(DeploymentView::DotCom) == JsonView::Object(seq![]),
{
    let entries = seq![("enterprise_domain"@, JsonView::Str(domain))];
    assert(entries[0].0 == "enterprise_domain"@);
    crate::json::lemma_entry_found(entries, "enterprise_domain"@, 0, 0);
}

/// The base that a seat is assigned is its address over HTTPS, without the slashes at
/// its end; an address over anything else assigns none.
pub proof fn law_seats_are_served_over_https(base: Seq<char>)
    requires
        base.len() > 0,
        !white_space(base[0]),
    ensures
        !white_space(base.last()) && base.last() != '/' && begins(base, "https://"@)
            ==> assigned_base(base) == Some(base),
        !white_space(base.last()) && base.last() != '/' && begins(base, "https://"@)
            ==> assigned_base(base.push('/')) == Some(base),
        !white_space(base.last()) && !begins(base, "https://"@) ==> assigned_base(base) is None,
{
    reveal_strlit("https://");
    if !white_space(base.last()) {
        law_trimmed_text_stays(base);
        law_trimmed_text_stays(base.push('/'));
        law_end_loses_one_character(base, '/');
        if begins(base, "https://"@) {
            assert(base.push('/').subrange(0, 8) =~= base.subrange(0, 8));
        }
    }
}

/// A seat's base is the one that its record assigns under its endpoints; a record without
/// endpoints, or without an address among them, assigns none.
pub proof fn law_seat_is_served_where_it_is_assigned(info: crate::copilot_enterprise::CopilotUserInfo)
    ensures
        info.endpoints is None ==> info.seat_base() is None,
        info.endpoints matches Some(e) ==> (e.api is None ==> info.seat_base() is None),
        info.endpoints matches Some(e) ==> (e.api matches Some(api) ==> info.seat_base()
            == assigned_base(api@)),
{
}

/// A plan's name tells its kind, whatever its case and the space around it.
pub proof fn law_plans_are_told_by_name(plan: Seq<char>)
    ensures
        ({
            let name = ascii_lowered(trimmed(plan));
            &&& name == "enterprise"@ <==> plan_kind(plan) == CopilotAccountType::Enterprise
            &&& name == "business"@ <==> plan_kind(plan) == CopilotAccountType::Business
            &&& name == "individual"@ || name == "free"@ || name == "pro"@ || name == "pro_plus"@
                || name == "individual_pro"@ <==> plan_kind(plan) == CopilotAccountType::Individual
        }),
{
    reveal_strlit("enterprise");
    reveal_strlit("business");
    reveal_strlit("individual");
    reveal_strlit("free");
    reveal_strlit("pro");
    reveal_strlit("pro_plus");
    reveal_strlit("individual_pro");
    assert("enterprise"@.len() == 10 && "enterprise"@[0] == 'e');
    assert("individual"@.len() == 10 && "individual"@[0] == 'i');
    assert("business"@.len() == 8 && "business"@[0] == 'b');
    assert("pro_plus"@.len() == 8 && "pro_plus"@[0] == 'p');
    assert("free"@.len() == 4);
    assert("pro"@.len() == 3);
    assert("individual_pro"@.len() == 14);
}

/// The value of a hexadecimal digit in small letters.
pub open spec fn hex_value(c: char) -> int {
    if '0' <= c <= '9' {
        c as int - '0' as int
    } else {
        c as int - 'a' as int + 10
    }
}

/// A fingerprint in hexadecimal tells every byte by two digits, the high one first.
pub proof fn law_fingerprints_read_back(bytes: Seq<u8>, i: int)
    requires
        0 <= i < bytes.len(),
    ensures
        hex_text(bytes).len() == 2 * bytes.len(),
        hex_value(hex_text(bytes)[2 * i]) * 16 + hex_value(hex_text(bytes)[2 * i + 1])
            == bytes[i] as int,
        '0' <= hex_text(bytes)[2 * i] <= '9' || 'a' <= hex_text(bytes)[2 * i] <= 'f',
        '0' <= hex_text(bytes)[2 * i + 1] <= '9' || 'a' <= hex_text(bytes)[2 * i + 1] <= 'f',
{
    let b = bytes[i] as int;
    assert((2 * i) % 2 == 0 && (2 * i) / 2 == i);
    assert((2 * i + 1) % 2 == 1 && (2 * i + 1) / 2 == i);
    assert(0 <= b / 16 < 16 && 0 <= b % 16 < 16);
}

/// Two tokens share what is known of their base only where they share their
/// fingerprint.
pub proof fn law_keys_tell_fingerprints_apart(a: Seq<char>, b: Seq<char>)
    ensures
        cache_key(a) == cache_key(b) ==> sha256(a) == sha256(b),
{
    if cache_key(a) == cache_key(b) {
        let x = sha256(a);
        let y = sha256(b);
        assert(hex_text(x).len() == hex_text(y).len());
        assert forall|i: int| 0 <= i < x.len() implies x[i] == y[i] by {
            law_fingerprints_read_back(x, i);
            law_fingerprints_read_back(y, i);
        }
        assert(x =~= y);
    }
}

/// A base is recorded as it is, without the slashes at its end; a blank one is not
/// recorded. Nothing else changes.
pub proof fn law_bases_are_recorded(
    known: BasesView,
    token: Seq<char>,
    base: Seq<char>,
    deployment: DeploymentView,
)
    requires
        base.len() > 0,
        !white_space(base[0]) && !white_space(base.last()),
        base.last() != '/',
    ensures
        base_known(recorded(known, token, base), token) == Some(base),
        base_known(recorded(known, token, base.push('/')), token) == Some(base),
        base_for(recorded(known, token, base), token, deployment) == base,
        recorded(known, token, base).generation == known.generation,
        recorded(known, token, seq![]) == known,
        recorded(known, token, seq!['/']) == known,
        base_known(known, token) is None ==> base_for(known, token, deployment) == default_api_base(
            deployment,
        ),
{
    law_trimmed_text_stays(base);
    law_trimmed_text_stays(base.push('/'));
    law_trimmed_text_stays(seq!['/']);
    law_end_loses_one_character(base, '/');
    assert(seq!['/'].drop_last() =~= seq![]);
    assert(trimmed_end_of(seq!['/'], '/') == trimmed_end_of(seq!['/'].drop_last(), '/'));
    assert(tidy_base(seq!['/']).len() == 0);
    assert(tidy_base(Seq::<char>::empty()).len() == 0);
}

/// Generations go up by one and never stand still.
pub proof fn law_generations_go_on(generation: u64)
    ensures
        generation < u64::MAX ==> next_generation(generation) == generation + 1,
        next_generation(u64::MAX) == 0,
        next_generation(generation) != generation,
{
}

/// A login puts the new token in place, none where there is none, and starts a new
/// generation. What is known of the old token's base stays only where the token
/// stays.
pub proof fn law_login_puts_the_token_in_place(
    known: BasesView,
    now: CredentialView,
    fresh: Seq<char>,
)
    ensures
        relogged(now, Some(fresh)).token == fresh,
        relogged(now, None).token == Seq::<char>::empty(),
        relogged(now, Some(fresh)).generation == next_generation(now.generation),
        relogged(now, None).generation == next_generation(now.generation),
        bases_after_login(known, now, Some(now.token)) == known,
        fresh != now.token ==> bases_after_login(known, now, Some(fresh)) == forgotten(
            known,
            now.token,
        ),
        bases_after_login(known, now, None) == forgotten(known, now.token),
{
}

/// A credential is current only as the very token of the very generation.
pub proof fn law_only_the_same_credential_is_current(
    now: CredentialView,
    token: Seq<char>,
    generation: u64,
)
    ensures
        is_current(now, now.token, now.generation),
        token != now.token ==> !is_current(now, token, generation),
        generation != now.generation ==> !is_current(now, token, generation),
{
}

/// Only a 401 is a failed authentication. A seat has moved only where another base
/// than before was found for it.
pub proof fn law_refusals_are_told_apart(status: u16, previous: Seq<char>, found: Seq<char>)
    ensures
        auth_failed(status) <==> status == 401,
        moved_base(previous, None) is None,
        moved_base(previous, Some(previous)) is None,
        found != previous ==> moved_base(previous, Some(found)) == Some(found),
{
}

} // verus!
