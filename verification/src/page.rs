//! The page that a browser joins with.

use crate::serve::ServeAuthRuntime;
use crate::text::same_text;
use vstd::prelude::*;
use vstd::string::*;

verus! {

/// The page up to the place that says whether visitors are asked for a secret.
pub const PAGE_HEAD: &'static str = r#"
<!DOCTYPE html>
<html lang="en">
<head>
<meta charset="UTF-8">
<meta name="viewport" content="width=device-width, initial-scale=1.0">
<title>bootty</title>
<link rel="stylesheet" href="/assets/xterm.min.css">
<style>
  :root { color-scheme: dark; }
  * { margin: 0; padding: 0; box-sizing: border-box; }
  body { background: #0b0f14; color: #d6deeb; font-family: ui-monospace, SFMono-Regular, Menlo, Monaco, Consolas, "Liberation Mono", "Courier New", monospace; font-size: 14px; }
  #terminal { width: 100vw; height: 100vh; }
  #status { position: fixed; top: 8px; right: 8px; z-index: 10; background: rgba(0, 0, 0, 0.72); padding: 4px 8px; border-radius: 4px; font-size: 12px; color: #93c5fd; }
</style>
</head>
<body>
<div id="status">Creating session...</div>
<div id="terminal"></div>
<script src="/assets/xterm.min.js"></script>
<script src="/assets/addon-fit.min.js"></script>
<script>
let clearPendingConnectTimeout = () => {};

(async function() {
  const AUTH_REQUIRED = "#;

/// The page from there to the place that says what they are asked for.
pub const PAGE_MIDDLE: &'static str = r#";
  const AUTH_LABEL = ""#;

/// The rest of the page.
pub const PAGE_TAIL: &'static str = r#"";

  const status = document.getElementById('status');
  const termElement = document.getElementById('terminal');
  let dc = null;
  let pc = null;
  let sessionId = null;
  let authSecret = '';
  let hasConnected = false;
  let sessionEnded = false;
  let connectTimeoutId = null;
  let connectTimedOut = false;
  const CONNECT_TIMEOUT_MS = 20000;

  function log(msg) {
    if ((!connectTimedOut || hasConnected) && (!sessionEnded || msg === 'Session ended')) {
      status.textContent = msg;
    }
    console.log(msg);
  }
  function clearConnectTimeout() {
    if (connectTimeoutId !== null) {
      window.clearTimeout(connectTimeoutId);
      connectTimeoutId = null;
    }
  }
  function startConnectTimeout() {
    clearConnectTimeout();
    connectTimedOut = false;
    connectTimeoutId = window.setTimeout(() => {
      connectTimeoutId = null;
      if (hasConnected || !pc || pc.connectionState === 'closed') return;
      connectTimedOut = true;
      status.textContent = 'Connection timed out. Please refresh and retry.';
      console.warn('Connection timed out after sending Answer.');
      pc.close();
      closeSession();
    }, CONNECT_TIMEOUT_MS);
  }
  clearPendingConnectTimeout = clearConnectTimeout;
  function authHeaders() {
    if (!AUTH_REQUIRED || !authSecret) return {};
    return { 'x-bootty-auth': authSecret };
  }

  function logIceCandidateError(event) {
    const code = typeof event.errorCode === 'number' ? event.errorCode : 'unknown';
    const text = event.errorText || 'unknown';
    if (code === 701) {
      console.warn(`ICE candidate warning (can be ignored): code=${code}, text=${text}`);
      return;
    }
    log(`ICE candidate error: code=${code}, text=${text}`);
    console.error('ICE candidate error', event);
  }

  function closeSession() {
    clearConnectTimeout();
    if (!sessionId) return;
    fetch(`/api/sessions/${encodeURIComponent(sessionId)}`, {
      method: 'DELETE',
      headers: authHeaders(),
      keepalive: true
    }).catch(() => {});
    sessionId = null;
  }

  window.addEventListener('pagehide', closeSession);

  if (AUTH_REQUIRED) {
    authSecret = window.prompt(`Authentication required: ${AUTH_LABEL}`) || '';
    if (!authSecret) {
      log('Authentication cancelled.');
      return;
    }
  }

  if (!window.Terminal || !window.FitAddon || !window.FitAddon.FitAddon) {
    log('Failed to load terminal assets. Please refresh and try again.');
    return;
  }

  const term = new window.Terminal({
    cursorBlink: true,
    allowProposedApi: false,
    scrollback: 10000,
    theme: {
      background: '#0b0f14',
      foreground: '#d6deeb',
      cursor: '#93c5fd'
    }
  });
  const fitAddon = new window.FitAddon.FitAddon();
  term.loadAddon(fitAddon);
  term.open(termElement);
  fitAddon.fit();
  term.focus();

  function sendControlMessage(payload) {
    if (!dc || dc.readyState !== 'open') return;
    dc.send(JSON.stringify(payload));
  }

  function sendTermSize() {
    sendControlMessage(['set_size', term.rows, term.cols]);
  }

  const createResp = await fetch('/api/sessions', {
    method: 'POST',
    headers: authHeaders()
  });
  if (!createResp.ok) {
    const text = await createResp.text();
    log(text || 'Failed to create session');
    return;
  }
  const session = await createResp.json();
  sessionId = session.session_id;
  log(`Session ${sessionId} created. Establishing connection...`);

  pc = new RTCPeerConnection({
    iceServers: session.stun_servers.map((url) => ({ urls: url }))
  });
  pc.oniceconnectionstatechange = () => {
    console.log(`ICE: ${pc.iceConnectionState}`);
    if (sessionEnded) {
      return;
    }
    if (connectTimedOut && !hasConnected) {
      return;
    }
    if (pc.iceConnectionState === 'checking') {
      status.textContent = 'Establishing connection...';
      return;
    }
    if (pc.iceConnectionState === 'connected' || pc.iceConnectionState === 'completed') {
      clearConnectTimeout();
      hasConnected = true;
      status.textContent = 'ICE connected. Waiting for session...';
      return;
    }
    if (pc.iceConnectionState === 'disconnected' || pc.iceConnectionState === 'failed') {
      if (hasConnected) {
        status.textContent = 'Connection interrupted. Waiting for recovery...';
      }
      console.warn(`ICE state during negotiation: ${pc.iceConnectionState}`);
      return;
    }
    status.textContent = `ICE: ${pc.iceConnectionState}`;
  };
  pc.onconnectionstatechange = () => {
    console.log(`Peer: ${pc.connectionState}`);
    if (sessionEnded) {
      return;
    }
    if (connectTimedOut && !hasConnected) {
      return;
    }
    if (pc.connectionState === 'connecting') {
      status.textContent = 'Establishing connection...';
      return;
    }
    if (pc.connectionState === 'connected') {
      clearConnectTimeout();
      hasConnected = true;
      status.textContent = 'Connected';
      return;
    }
    if (pc.connectionState === 'disconnected' || pc.connectionState === 'failed') {
      if (hasConnected) {
        status.textContent = pc.connectionState === 'failed'
          ? 'Connection lost. Please refresh and retry.'
          : 'Connection interrupted. Waiting for recovery...';
      }
      console.warn(`Peer state during negotiation: ${pc.connectionState}`);
      return;
    }
    if (pc.connectionState === 'closed') {
      clearConnectTimeout();
      status.textContent = 'Disconnected';
      return;
    }
    status.textContent = `Peer: ${pc.connectionState}`;
  };
  pc.onicecandidateerror = logIceCandidateError;

  pc.ondatachannel = (e) => {
    dc = e.channel;
    dc.binaryType = 'arraybuffer';

    dc.onopen = () => {
      clearConnectTimeout();
      hasConnected = true;
      log('Connected');
      fitAddon.fit();
      sendTermSize();
      term.focus();
    };

    dc.onmessage = async (evt) => {
      if (typeof evt.data === 'string') {
        if (evt.data === 'quit') {
          sessionEnded = true;
          clearConnectTimeout();
          log('Session ended');
          dc.close();
          closeSession();
          return;
        }
        return;
      }
      if (evt.data instanceof ArrayBuffer) {
        term.write(new Uint8Array(evt.data));
        return;
      }
      if (evt.data instanceof Blob) {
        const buffer = await evt.data.arrayBuffer();
        term.write(new Uint8Array(buffer));
      }
    };

    dc.onclose = () => {
      clearConnectTimeout();
      if (!sessionEnded) {
        log('Disconnected');
      }
      closeSession();
    };
    dc.onerror = (err) => {
      clearConnectTimeout();
      if (!sessionEnded) {
        log('Data channel error');
      }
      console.error(err);
    };
  };

  await pc.setRemoteDescription({ type: 'offer', sdp: session.offer_sdp });

  const answer = await pc.createAnswer();
  await pc.setLocalDescription(answer);

  await new Promise(resolve => {
    if (pc.iceGatheringState === 'complete') { resolve(); return; }
    pc.onicegatheringstatechange = () => {
      if (pc.iceGatheringState === 'complete') resolve();
    };
  });

  const localSdp = pc.localDescription?.sdp || '';
  if (!localSdp.includes('a=candidate:')) {
    log('No ICE candidates gathered. Check network/firewall and try again.');
    closeSession();
    return;
  }

  log('Sending Answer...');
  const answerResp = await fetch(`/api/sessions/${encodeURIComponent(sessionId)}/answer`, {
    method: 'POST',
    headers: {
      'Content-Type': 'text/plain',
      ...authHeaders()
    },
    body: localSdp
  });
  if (!answerResp.ok) {
    const text = await answerResp.text();
    log(text || 'Failed to send Answer');
    pc.close();
    closeSession();
    return;
  }
  log('Answer sent. Waiting for connection...');
  startConnectTimeout();

  term.onData((data) => {
    sendControlMessage(['stdin', data]);
  });
  term.onResize(({ rows, cols }) => {
    sendControlMessage(['set_size', rows, cols]);
  });
  window.addEventListener('resize', () => {
    fitAddon.fit();
  });
  window.addEventListener('click', () => term.focus());
})().catch((err) => {
  console.error('Connection flow error', err);
  clearPendingConnectTimeout();
  const status = document.getElementById('status');
  if (status) {
    status.textContent = 'Connection flow error. Check the console for details.';
  }
});
</script>
</body>
</html>"#;

/// The page for a server that asks in this way.
pub open spec fn page_for(auth: ServeAuthRuntime) -> Seq<char> {
    PAGE_HEAD@ + (if auth is NoAuth {
        "false"@
    } else {
        "true"@
    }) + PAGE_MIDDLE@ + auth.spec_label() + PAGE_TAIL@
}

/// Renders the page that a browser joins with.
pub fn index_page(auth: &ServeAuthRuntime) -> (r: String)
    ensures
        r@ == page_for(*auth),
        auth is NoAuth ==> r@ == PAGE_HEAD@ + "false"@ + PAGE_MIDDLE@ + "none"@ + PAGE_TAIL@,
        auth is Pin ==> r@ == PAGE_HEAD@ + "true"@ + PAGE_MIDDLE@ + "6-digit PIN"@ + PAGE_TAIL@,
        auth is PasswordHash ==> r@ == PAGE_HEAD@ + "true"@ + PAGE_MIDDLE@ + "password"@
            + PAGE_TAIL@,
{
    let mut page = PAGE_HEAD.to_string();
    if auth.is_required() {
        page.append("true");
    } else {
        page.append("false");
    }
    page.append(PAGE_MIDDLE);
    page.append(auth.label());
    page.append(PAGE_TAIL);
    page
}

/// The content type of a file that the page loads; nothing for any other name.
pub open spec fn asset_type_of(name: Seq<char>) -> Option<Seq<char>> {
    if name == "xterm.min.css"@ {
        Some("text/css; charset=utf-8"@)
    } else if name == "xterm.min.js"@ || name == "addon-fit.min.js"@ {
        Some("application/javascript; charset=utf-8"@)
    } else {
        None
    }
}

/// Finds the content type of a file that the page loads.
pub fn asset_type(name: &str) -> (r: Option<&'static str>)
    ensures
        match r {
            Some(t) => asset_type_of(name@) == Some(t@),
            None => asset_type_of(name@) is None,
        },
        r is Some <==> name@ == "xterm.min.css"@ || name@ == "xterm.min.js"@ || name@
            == "addon-fit.min.js"@,
        name@ == "xterm.min.css"@ ==> (r matches Some(t) && t@ == "text/css; charset=utf-8"@),
        name@ == "xterm.min.js"@ || name@ == "addon-fit.min.js"@ ==> (r matches Some(t) && t@
            == "application/javascript; charset=utf-8"@),
{
    proof {
        reveal_strlit("xterm.min.css");
        reveal_strlit("xterm.min.js");
        reveal_strlit("addon-fit.min.js");
        assert("xterm.min.css"@.len() == 13 && "xterm.min.js"@.len() == 12);
        assert("addon-fit.min.js"@.len() == 16);
    }
    if same_text(name, "xterm.min.css") {
        Some("text/css; charset=utf-8")
    } else if same_text(name, "xterm.min.js") || same_text(name, "addon-fit.min.js") {
        Some("application/javascript; charset=utf-8")
    } else {
        None
    }
}

} // verus!
