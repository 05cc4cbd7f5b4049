//! Turning Copilot's HTTP errors into messages that a user can act on.
//!
//! A few failures come with a body that explains the symptom but not the remedy.
//! Which models a token may reach, for one, is decided by the OAuth app that
//! minted it and not by the header that the body blames.

use crate::copilot_enterprise::{default_api_base, CopilotDeployment, DeploymentView};
use crate::message::text_option;
use crate::text::{begins, contains, occurs, owned};
use vstd::prelude::*;

verus! {

/// Copilot's code for a model that is outside the token's catalog.
pub const MODEL_NOT_AVAILABLE_FOR_INTEGRATOR: &'static str = "model_not_available_for_integrator";

/// Copilot's code for a model that was sent to an endpoint it does not serve:
/// what is believed of the model is stale.
pub const UNSUPPORTED_API_FOR_MODEL: &'static str = "unsupported_api_for_model";

/// The OAuth app that mints tokens, and the setting that names it.
pub struct OauthApp<'a> {
    pub client_id: &'a str,
    /// The environment variable that sets the client id.
    pub client_id_env: &'a str,
}

/// What to say where the deployment may be the wrong one.
pub open spec fn deployment_guidance(deployment: DeploymentView) -> Seq<char> {
    match deployment {
        DeploymentView::Enterprise(domain) =>
            "\n\njcode is configured for the GitHub Enterprise deployment `"@ + domain
            + "` and sent this request to `"@ + default_api_base(deployment)
            + "`. A token minted on github.com is not valid there. Re-run `jcode login --provider copilot --enterprise "@
            + domain
            + "`, or switch back with `jcode login --provider copilot --enterprise github.com`."@,
        DeploymentView::DotCom =>
            "\n\njcode used the github.com Copilot deployment. If this account is on GitHub Enterprise, log in against it with `jcode login --provider copilot --enterprise <your-domain>`."@,
    }
}

/// What to say where the token's app does not offer the model.
pub open spec fn app_guidance(client_id: Seq<char>, client_id_env: Seq<char>) -> Seq<char> {
    "\n\nThis is not really about the requested model, and not about the `Copilot-Integration-Id` header the message names. GitHub decides which models a token may reach from the OAuth app that minted it. Your token was minted under client ID `"@
        + client_id
        + "`, whose catalog is the list above.\n\nTo reach a model that is missing from that list, mint a token under an app that offers it: set `"@
        + client_id_env
        + "` to that app's client ID and re-run `jcode login --provider copilot`. Re-authenticating alone is not enough — an existing token keeps the catalog of the app it was minted under.\n\nOtherwise pick one of the models listed above."@
}

/// The guidance for an error, where there is any to give.
pub open spec fn guidance(
    status: u16,
    body: Seq<char>,
    deployment: DeploymentView,
    client_id: Seq<char>,
    client_id_env: Seq<char>,
) -> Option<Seq<char>> {
    if status == 401 || status == 403 {
        Some(deployment_guidance(deployment))
    } else if status == 400 && occurs(body, "model_not_available_for_integrator"@) {
        Some(app_guidance(client_id, client_id_env))
    } else {
        None
    }
}

/// The guidance to append to an HTTP error; nothing for an error whose own body
/// says enough.
pub fn guidance_for(
    status: u16,
    body: &str,
    deployment: &CopilotDeployment,
    app: &OauthApp<'_>,
) -> (r: Option<String>)
    ensures
        text_option(r) == guidance(
            status,
            body@,
            deployment@,
            app.client_id@,
            app.client_id_env@,
        ),
{
    if status == 401 || status == 403 {
        return Some(
            match deployment.enterprise_domain() {
                Some(domain) => {
                    let mut r = owned(
                        "\n\njcode is configured for the GitHub Enterprise deployment `",
                    );
                    r.append(domain);
                    r.append("` and sent this request to `");
                    r.append(deployment.api_base().as_str());
                    r.append(
                        "`. A token minted on github.com is not valid there. Re-run `jcode login --provider copilot --enterprise ",
                    );
                    r.append(domain);
                    r.append(
                        "`, or switch back with `jcode login --provider copilot --enterprise github.com`.",
                    );
                    r
                },
                None => owned(
                    "\n\njcode used the github.com Copilot deployment. If this account is on GitHub Enterprise, log in against it with `jcode login --provider copilot --enterprise <your-domain>`.",
                ),
            },
        );
    }
    if status != 400 || !contains(body, MODEL_NOT_AVAILABLE_FOR_INTEGRATOR) {
        return None;
    }
    let mut r = owned(
        "\n\nThis is not really about the requested model, and not about the `Copilot-Integration-Id` header the message names. GitHub decides which models a token may reach from the OAuth app that minted it. Your token was minted under client ID `",
    );
    r.append(app.client_id);
    r.append(
        "`, whose catalog is the list above.\n\nTo reach a model that is missing from that list, mint a token under an app that offers it: set `",
    );
    r.append(app.client_id_env);
    r.append(
        "` to that app's client ID and re-run `jcode login --provider copilot`. Re-authenticating alone is not enough — an existing token keeps the catalog of the app it was minted under.\n\nOtherwise pick one of the models listed above.",
    );
    Some(r)
}

/// An error's body with its guidance.
pub open spec fn annotated(
    status: u16,
    body: Seq<char>,
    deployment: DeploymentView,
    client_id: Seq<char>,
    client_id_env: Seq<char>,
) -> Seq<char> {
    match guidance(status, body, deployment, client_id, client_id_env) {
        Some(extra) => body + extra,
        None => body,
    }
}

/// Appends the guidance to the body of an HTTP error, where there is any.
pub fn annotate(
    status: u16,
    body: &str,
    deployment: &CopilotDeployment,
    app: &OauthApp<'_>,
) -> (r: String)
    ensures
        r@ == annotated(status, body@, deployment@, app.client_id@, app.client_id_env@),
{
    let mut r = owned(body);
    match guidance_for(status, body, deployment, app) {
        Some(extra) => {
            r.append(extra.as_str());
        },
        None => {},
    }
    r
}

/// Annotating an error keeps its body, in front.
pub proof fn law_annotation_keeps_the_body(
    status: u16,
    body: Seq<char>,
    deployment: DeploymentView,
    client_id: Seq<char>,
    client_id_env: Seq<char>,
)
    ensures
        begins(annotated(status, body, deployment, client_id, client_id_env), body),
{
    let r = annotated(status, body, deployment, client_id, client_id_env);
    assert(r.subrange(0, body.len() as int) =~= body);
}

} // verus!
