//! What holds of every failure that is told: what the service said is in it, and what
//! to do about it fits. And what holds of prices that are told.

use crate::copilot_catalog_pricing::{catalog_estimate, micros, CopilotCatalogBilling};
use crate::copilot_enterprise::DeploymentView;
use crate::credentials::no_credential;
use crate::errors::annotated;
use crate::route_cost::{RouteBillingKind, RouteCostConfidence, RouteCostSource};
use crate::stream::{empty_failure, idle_failure, read_failure, silent, Next};
use crate::stream_request::{api_failure, auth_failure, retryable, send_failure};
use crate::text::{decimal, occurs};
use vstd::prelude::*;

verus! {

/// A failure says what went wrong and what the service said.
pub proof fn law_failures_say_what_happened(
    status: Seq<char>,
    body: Seq<char>,
    message: Seq<char>,
    secs: u64,
)
    ensures
        send_failure(message) == "Copilot API request failed: "@ + message,
        api_failure(status, body) == "Copilot API error (HTTP "@ + status + "): "@ + body,
        auth_failure(status, body) == "Copilot authentication failed (HTTP "@ + status
            + "). Run `jcode login --provider copilot` to re-authenticate: "@ + body,
        read_failure(message) == "Stream error: "@ + message,
        idle_failure(secs) == "Stream read timeout: no data received for "@ + decimal(secs as nat)
            + " seconds"@,
        empty_failure() == "Copilot returned an empty stream"@,
        no_credential()
            == "GitHub Copilot credentials are no longer available. Run `jcode login --provider copilot`."@,
{
}

/// A silent step says nothing and counts nothing.
pub proof fn law_silent_steps_say_nothing(next: Next<Seq<char>>)
    ensures
        silent(next).events.len() == 0,
        silent(next).error is None,
        silent(next).usage is None,
        silent(next).next == next,
{
}

/// A failure may pass where it is known to be transient, or names a server's fault, a
/// rate limit or a broken stream; no other may.
pub proof fn law_passing_failures_are_known(error: Seq<char>)
    ensures
        retryable(error, true),
        retryable(error, false) <==> (occurs(error, "500 internal server error"@) || occurs(
            error,
            "502 bad gateway"@,
        ) || occurs(error, "503 service unavailable"@) || occurs(error, "504 gateway timeout"@)
            || occurs(error, "overloaded"@) || occurs(error, "429 too many requests"@) || occurs(
            error,
            "rate limit"@,
        ) || occurs(error, "rate_limit"@) || occurs(error, "stream error"@) || occurs(
            error,
            "stream read timeout"@,
        )),
{
}

proof fn lemma_part(a: Seq<char>, b: Seq<char>, c: Seq<char>)
    ensures
        occurs(a + b + c, b),
{
    let all = a + b + c;
    assert(all.subrange(a.len() as int, (a.len() + b.len()) as int) =~= b);
    assert(crate::text::occurs_at(all, b, a.len() as int));
}

/// A refused login is told which deployment refused it, and how to log in there. A
/// model that the app cannot reach is told whose app it is, and how to change it.
/// Every other failure is told as it came.
pub proof fn law_refusals_say_what_to_do(
    status: u16,
    body: Seq<char>,
    domain: Seq<char>,
    client_id: Seq<char>,
    client_id_env: Seq<char>,
)
    ensures
        ({
            let there = DeploymentView::Enterprise(domain);
            let told = annotated(status, body, there, client_id, client_id_env);
            let at_home = annotated(status, body, DeploymentView::DotCom, client_id, client_id_env);
            let refused = status == 401 || status == 403;
            let unreachable = status == 400 && occurs(body, "model_not_available_for_integrator"@);
            &&& refused ==> occurs(told, "`jcode login --provider copilot --enterprise "@ + domain)
                && occurs(told, "https://copilot-api."@ + domain)
            &&& refused ==> occurs(
                at_home,
                "log in against it with `jcode login --provider copilot --enterprise <your-domain>`."@,
            )
            &&& unreachable ==> occurs(told, "`"@ + client_id + "`"@) && occurs(
                told,
                "`"@ + client_id_env + "`"@,
            ) && told == at_home
            &&& !refused && !unreachable ==> told == body && at_home == body
        }),
{
    if status == 401 || status == 403 {
        lemma_enterprise_told(status, body, domain, client_id, client_id_env);
        lemma_dotcom_told(status, body, client_id, client_id_env);
    } else if status == 400 && occurs(body, "model_not_available_for_integrator"@) {
        lemma_app_told(status, body, domain, client_id, client_id_env);
    }
}

proof fn lemma_enterprise_told(
    status: u16,
    body: Seq<char>,
    domain: Seq<char>,
    client_id: Seq<char>,
    client_id_env: Seq<char>,
)
    requires
        status == 401 || status == 403,
    ensures
        ({
            let there = DeploymentView::Enterprise(domain);
            let told = annotated(status, body, there, client_id, client_id_env);
            occurs(told, "`jcode login --provider copilot --enterprise "@ + domain) && occurs(
                told,
                "https://copilot-api."@ + domain,
            )
        }),
{
    let told = annotated(
        status,
        body,
        DeploymentView::Enterprise(domain),
        client_id,
        client_id_env,
    );
    let p1 = "\n\njcode is configured for the GitHub Enterprise deployment `"@;
    let p2 = "` and sent this request to `"@;
    let base = "https://copilot-api."@ + domain;
    let p3 =
        "`. A token minted on github.com is not valid there. Re-run `jcode login --provider copilot --enterprise "@;
    let p4 =
        "`, or switch back with `jcode login --provider copilot --enterprise github.com`."@;
    let front = body + (p1 + domain + p2);
    assert(told =~= front + base + (p3 + domain + p4));
    lemma_part(front, base, p3 + domain + p4);
    reveal_strlit(
        "`. A token minted on github.com is not valid there. Re-run `jcode login --provider copilot --enterprise ",
    );
    reveal_strlit("`. A token minted on github.com is not valid there. Re-run ");
    reveal_strlit("`jcode login --provider copilot --enterprise ");
    let words = "`. A token minted on github.com is not valid there. Re-run "@;
    let command = "`jcode login --provider copilot --enterprise "@;
    assert(p3 =~= words + command);
    let before = front + base + words;
    assert(told =~= before + (command + domain) + p4);
    lemma_part(before, command + domain, p4);
}

proof fn lemma_dotcom_told(
    status: u16,
    body: Seq<char>,
    client_id: Seq<char>,
    client_id_env: Seq<char>,
)
    requires
        status == 401 || status == 403,
    ensures
        occurs(
            annotated(status, body, DeploymentView::DotCom, client_id, client_id_env),
            "log in against it with `jcode login --provider copilot --enterprise <your-domain>`."@,
        ),
{
    let told = annotated(status, body, DeploymentView::DotCom, client_id, client_id_env);
    reveal_strlit(
        "\n\njcode used the github.com Copilot deployment. If this account is on GitHub Enterprise, log in against it with `jcode login --provider copilot --enterprise <your-domain>`.",
    );
    reveal_strlit(
        "\n\njcode used the github.com Copilot deployment. If this account is on GitHub Enterprise, ",
    );
    reveal_strlit(
        "log in against it with `jcode login --provider copilot --enterprise <your-domain>`.",
    );
    let front =
        "\n\njcode used the github.com Copilot deployment. If this account is on GitHub Enterprise, "@;
    let advice =
        "log in against it with `jcode login --provider copilot --enterprise <your-domain>`."@;
    assert("\n\njcode used the github.com Copilot deployment. If this account is on GitHub Enterprise, log in against it with `jcode login --provider copilot --enterprise <your-domain>`."@
        =~= front + advice);
    assert(told =~= (body + front) + advice + seq![]);
    lemma_part(body + front, advice, seq![]);
}

proof fn lemma_app_told(
    status: u16,
    body: Seq<char>,
    domain: Seq<char>,
    client_id: Seq<char>,
    client_id_env: Seq<char>,
)
    requires
        status == 400,
        occurs(body, "model_not_available_for_integrator"@),
    ensures
        ({
            let there = DeploymentView::Enterprise(domain);
            let told = annotated(status, body, there, client_id, client_id_env);
            occurs(told, "`"@ + client_id + "`"@) && occurs(told, "`"@ + client_id_env + "`"@)
        }),
{
    let told = annotated(
        status,
        body,
        DeploymentView::Enterprise(domain),
        client_id,
        client_id_env,
    );
    let p1 =
        "\n\nThis is not really about the requested model, and not about the `Copilot-Integration-Id` header the message names. GitHub decides which models a token may reach from the OAuth app that minted it. Your token was minted under client ID `"@;
    let p2 =
        "`, whose catalog is the list above.\n\nTo reach a model that is missing from that list, mint a token under an app that offers it: set `"@;
    let p3 =
        "` to that app's client ID and re-run `jcode login --provider copilot`. Re-authenticating alone is not enough — an existing token keeps the catalog of the app it was minted under.\n\nOtherwise pick one of the models listed above."@;
    reveal_strlit(
        "\n\nThis is not really about the requested model, and not about the `Copilot-Integration-Id` header the message names. GitHub decides which models a token may reach from the OAuth app that minted it. Your token was minted under client ID `",
    );
    reveal_strlit(
        "`, whose catalog is the list above.\n\nTo reach a model that is missing from that list, mint a token under an app that offers it: set `",
    );
    reveal_strlit(
        "` to that app's client ID and re-run `jcode login --provider copilot`. Re-authenticating alone is not enough — an existing token keeps the catalog of the app it was minted under.\n\nOtherwise pick one of the models listed above.",
    );
    reveal_strlit("`");
    let tick = "`"@;
    assert(p1 =~= p1.drop_last() + tick);
    assert(p2 =~= p2.drop_last() + tick);
    assert(p2 =~= tick + p2.skip(1));
    assert(p3 =~= tick + p3.skip(1));
    let a = body + p1.drop_last();
    let id = tick + client_id + tick;
    let rest = p2.skip(1) + client_id_env + p3;
    assert(told =~= a + id + rest);
    lemma_part(a, id, rest);
    let b = body + p1 + client_id + p2.drop_last();
    let env = tick + client_id_env + tick;
    assert(told =~= b + env + p3.skip(1));
    lemma_part(b, env, p3.skip(1));
}

/// The price of a million tokens in microdollars is the credits of a batch, ten
/// thousand microdollars each, scaled to a million tokens and rounded down.
pub proof fn law_prices_are_scaled_to_a_million(credits: u64, batch_size: u64)
    requires
        batch_size > 0,
        (credits * 10_000_000_000) / (batch_size as int) < 0x1_0000_0000_0000_0000,
    ensures
        micros(credits, batch_size) * batch_size <= credits * 10_000 * 1_000_000,
        credits * 10_000 * 1_000_000 < (micros(credits, batch_size) + 1) * batch_size,
{
    let x = credits * 10_000_000_000;
    let d = batch_size as int;
    let q = x / d;
    vstd::arithmetic::div_mod::lemma_fundamental_div_mod(x, d);
    vstd::arithmetic::div_mod::lemma_mod_bound(x, d);
    vstd::arithmetic::div_mod::lemma_div_pos_is_pos(x, d);
    assert(q % 0x1_0000_0000_0000_0000 == q);
    assert(q * d == d * q) by (nonlinear_arith);
    assert((q + 1) * d == d * q + d) by (nonlinear_arith);
}

/// An estimate from the catalog tells each kind of token by its own price, as a route
/// that is paid by the token and known from the live catalog.
pub proof fn law_estimate_tells_each_price(billing: CopilotCatalogBilling)
    ensures
        ({
            let e = catalog_estimate(billing);
            &&& e.billing_kind == RouteBillingKind::Metered
            &&& e.source == RouteCostSource::CopilotCatalog
            &&& e.confidence == RouteCostConfidence::High
            &&& e.input == Some(micros(billing.default.input_price, billing.batch_size) as u64)
            &&& e.output == Some(micros(billing.default.output_price, billing.batch_size) as u64)
            &&& e.cache_read == Some(micros(billing.default.cache_price, billing.batch_size) as u64)
            &&& e.note == Some("Copilot live catalog per-token pricing"@)
        }),
{
}

} // verus!
