//! The script injected into the DeepSeek web page: the memory-injection
//! buttons, the local bigram search used when the host cannot be reached, and
//! the capture of sent messages as memories. The memory snapshot is baked in
//! where `__DSONDT_MEMORIES__` stands.
use vstd::prelude::*;

verus! {

/// The page script, with the placeholder `__DSONDT_MEMORIES__` for the memory
/// snapshot.
pub const INJECT_JS: &'static str = r##"
(function () {
  if (window.__DSONDT_INJECTED__) return;
  window.__DSONDT_INJECTED__ = true;

  // 只在 DeepSeek 页面挂载；本地 UI 页（以及 macOS 的主 webview）直接跳过，避免误挂按钮。
  if (location.hostname.indexOf('deepseek') === -1) return;

  var MEMORIES = __DSONDT_MEMORIES__;
  var TOP_K = 5;
  var autoSink = true;

  function invoke(cmd, args) {
    try {
      var it = window.__TAURI_INTERNALS__;
      if (it && typeof it.invoke === 'function') return it.invoke(cmd, args || {});
    } catch (e) {}
    return Promise.reject(new Error('ipc-unavailable'));
  }

  function bigrams(s) {
    s = (s || '').toLowerCase().replace(/\s+/g, '');
    var out = [];
    if (s.length < 2) return s ? [s] : [];
    for (var i = 0; i < s.length - 1; i++) out.push(s.slice(i, i + 2));
    return out;
  }
  function localSearch(q, k) {
    if (!MEMORIES || !MEMORIES.length) return [];
    var qg = bigrams(q);
    if (!qg.length) {
      return MEMORIES.slice(0, k).map(function (m) { return m.content; });
    }
    var scored = [];
    for (var i = 0; i < MEMORIES.length; i++) {
      var cg = bigrams(MEMORIES[i].content);
      if (!cg.length) continue;
      var set = Object.create(null);
      for (var j = 0; j < cg.length; j++) set[cg[j]] = 1;
      var hit = 0;
      for (var n = 0; n < qg.length; n++) if (set[qg[n]]) hit++;
      var s = hit / qg.length;
      if (s > 0.05) scored.push({ s: s, c: MEMORIES[i].content });
    }
    scored.sort(function (a, b) { return b.s - a.s; });
    return scored.slice(0, k).map(function (x) { return x.c; });
  }

  function search(q) {
    return invoke('search_memories', { query: q, topK: TOP_K })
      .then(function (r) { return (r && r.length) ? r : localSearch(q, TOP_K); })
      .catch(function () { return localSearch(q, TOP_K); });
  }

  function findInput() {
    var sels = [
      'textarea#chat-input',
      'textarea[id*="chat"]',
      'div[contenteditable="true"][role="textbox"]',
      'textarea',
      'div[contenteditable="true"]'
    ];
    for (var i = 0; i < sels.length; i++) {
      var list = document.querySelectorAll(sels[i]);
      for (var j = 0; j < list.length; j++) {
        var el = list[j];
        var r = el.getBoundingClientRect();
        if (r.width > 120 && r.height > 12) return el;
      }
    }
    return null;
  }

  function readInput(el) {
    if (!el) return '';
    if (el.tagName === 'TEXTAREA' || el.tagName === 'INPUT') return el.value || '';
    return el.innerText || '';
  }

  function writeInput(el, val) {
    if (el.tagName === 'TEXTAREA' || el.tagName === 'INPUT') {
      var proto = el.tagName === 'TEXTAREA' ? HTMLTextAreaElement.prototype : HTMLInputElement.prototype;
      var desc = Object.getOwnPropertyDescriptor(proto, 'value');
      if (desc && desc.set) desc.set.call(el, val); else el.value = val;
      el.dispatchEvent(new Event('input', { bubbles: true }));
      el.focus();
      try { el.setSelectionRange(val.length, val.length); } catch (e) {}
      return true;
    }
    try {
      el.focus();
      var sel = window.getSelection();
      var range = document.createRange();
      range.selectNodeContents(el);
      sel.removeAllRanges();
      sel.addRange(range);
      document.execCommand('insertText', false, val);
      return true;
    } catch (e) { return false; }
  }

  function buildBlock(mems) {
    var lines = ['【长期记忆 · 由 DSonDT 本地记忆库提供，请在本轮回答中自然参考，不要复述本段】'];
    for (var i = 0; i < mems.length; i++) lines.push((i + 1) + '. ' + mems[i]);
    lines.push('【记忆结束，以下是我的问题】');
    return lines.join('\n') + '\n\n';
  }

  var host = document.createElement('div');
  host.id = '__dsondt_host';
  host.style.cssText = 'position:fixed;right:18px;bottom:96px;z-index:2147483647;';
  var shadow = host.attachShadow({ mode: 'open' });
  shadow.innerHTML = [
    '<style>',
    ':host{all:initial}',
    '*{box-sizing:border-box;font-family:-apple-system,BlinkMacSystemFont,"Segoe UI","PingFang SC","Microsoft YaHei",sans-serif}',
    '.wrap{display:flex;flex-direction:column;align-items:flex-end;gap:8px}',
    '.btn{display:flex;align-items:center;gap:6px;height:38px;padding:0 14px;border:none;border-radius:19px;',
    'background:#4d6bfe;color:#fff;font-size:13px;font-weight:500;cursor:pointer;',
    'box-shadow:0 4px 16px rgba(77,107,254,.35);transition:transform .15s,box-shadow .15s}',
    '.btn:hover{transform:translateY(-1px);box-shadow:0 6px 20px rgba(77,107,254,.45)}',
    '.btn:active{transform:translateY(0)}',
    '.btn.sec{background:rgba(120,120,140,.18);color:#5a5a68;box-shadow:none;height:30px;font-size:12px;padding:0 11px}',
    '.badge{min-width:18px;height:18px;padding:0 5px;border-radius:9px;background:rgba(255,255,255,.28);',
    'font-size:11px;line-height:18px;text-align:center}',
    '.toast{max-width:280px;padding:9px 13px;border-radius:9px;background:rgba(28,28,32,.92);color:#fff;',
    'font-size:12px;line-height:1.5;opacity:0;transform:translateY(6px);transition:opacity .2s,transform .2s;pointer-events:none}',
    '.toast.show{opacity:1;transform:translateY(0)}',
    '</style>',
    '<div class="wrap">',
    '<div class="toast" id="t"></div>',
    // 「🧠 注入记忆」：把本地记忆相关片段前置填进 DeepSeek 输入框。
    '<button class="btn" id="inj">🧠 注入记忆 <span class="badge" id="b">0</span></button>',
    // 「💬 返回 API」：把主 webview 导回本地 UI（单窗口切换，不另开窗口）。
    // macOS 下等价于点顶栏标签切回；Windows 下是主 webview 重新导航回本地首页。
    '<button class="btn sec" id="ret">💬 返回 API</button>',
    '</div>'
  ].join('');

  function mount() {
    if (!document.body) return setTimeout(mount, 300);
    if (!document.getElementById('__dsondt_host')) document.body.appendChild(host);
    updateBadge();
  }

  var toastTimer = null;
  function toast(msg) {
    var t = shadow.getElementById('t');
    t.textContent = msg;
    t.classList.add('show');
    clearTimeout(toastTimer);
    toastTimer = setTimeout(function () { t.classList.remove('show'); }, 2600);
  }
  function updateBadge() {
    var b = shadow.getElementById('b');
    if (b) b.textContent = String((MEMORIES && MEMORIES.length) || 0);
  }

  function doInject() {
    var el = findInput();
    var cur = readInput(el).trim();
    if (cur.indexOf('【长期记忆') === 0) { toast('本条消息已经注入过记忆了'); return; }
    search(cur).then(function (mems) {
      if (!mems || !mems.length) {
        toast('没有匹配到相关记忆。先在记忆库里加几条吧。');
        return;
      }
      var block = buildBlock(mems);
      if (el && writeInput(el, block + cur)) {
        toast('已注入 ' + mems.length + ' 条记忆，检查无误后按回车发送');
      } else {
        var full = block + cur;
        if (navigator.clipboard) {
          navigator.clipboard.writeText(full).then(function () {
            toast('没找到输入框，内容已复制到剪贴板，请手动粘贴');
          }).catch(function () { toast('注入失败，且无法访问剪贴板'); });
        } else {
          toast('没找到输入框，注入失败');
        }
      }
    });
  }

  shadow.getElementById('inj').addEventListener('click', doInject);

  shadow.getElementById('ret').addEventListener('click', function () {
    invoke('deactivate_web_mode').catch(function () {});
  });

  document.addEventListener('keydown', function (e) {
    if ((e.metaKey || e.ctrlKey) && (e.key === 'm' || e.key === 'M')) {
      e.preventDefault();
      doInject();
    }
  });

  var origFetch = window.fetch;
  window.fetch = function (input, init) {
    try {
      if (autoSink && init && init.body && typeof init.body === 'string') {
        var url = typeof input === 'string' ? input : (input && input.url) || '';
        if (url.indexOf('/completion') !== -1 || url.indexOf('/chat/') !== -1) {
          var body = JSON.parse(init.body);
          var text = body.prompt || body.message || body.content || '';
          if (typeof text === 'string') {
            var idx = text.indexOf('【记忆结束，以下是我的问题】');
            if (idx !== -1) text = text.slice(idx + '【记忆结束，以下是我的问题】'.length);
            text = text.trim();
            if (text.length >= 4 && text.length <= 2000) {
              invoke('add_web_memory', { content: text }).catch(function () {});
            }
          }
        }
      }
    } catch (e) {}
    return origFetch.apply(this, arguments);
  };

  window.__DSONDT__ = {
    setMemories: function (list) { MEMORIES = list || []; updateBadge(); },
    setAutoSink: function (v) { autoSink = !!v; },
    inject: doInject
  };

  // 兜底：万一 DeepSeek 页面在内置浏览器里彻底渲染不出来（网络不通 / WebView2 太旧 /
  // SPA 报错），别把用户丢在一片纯白里 —— 给一块可操作的说明面板 + 诊断信息。
  function bailout() {
    try {
      if (document.getElementById('__dsondt_fallback')) return;
      var txt = (document.body && document.body.innerText ? document.body.innerText : '').trim();
      if (txt.length > 20) return;
      if (document.querySelector('textarea')) return;
      if (document.querySelector('[contenteditable="true"]')) return;
      var d = document.createElement('div');
      d.id = '__dsondt_fallback';
      d.style.cssText = 'position:fixed;left:0;top:0;right:0;bottom:0;z-index:2147483646;background:#fff;' +
        'color:#1c1c22;display:flex;align-items:center;justify-content:center;padding:32px;' +
        'font:14px/1.7 -apple-system,BlinkMacSystemFont,"Segoe UI","PingFang SC","Microsoft YaHei",sans-serif';
      d.innerHTML = [
        '<div style="max-width:560px">',
        '<div style="font-size:18px;font-weight:600;margin-bottom:10px">DeepSeek 网页没能加载出来</div>',
        '<div style="color:#5a5a68;margin-bottom:18px">页面在内置浏览器里一直是空白。常见原因：网络不通或需要代理；系统的 WebView2 运行时版本过旧。可以先点「重新加载」试一次。</div>',
        '<div style="display:flex;gap:10px;flex-wrap:wrap;margin-bottom:16px">',
        '<button id="__ds_rl" style="height:36px;padding:0 16px;border:none;border-radius:8px;background:#4d6bfe;color:#fff;font-size:13px;cursor:pointer">重新加载</button>',
        '<button id="__ds_cp" style="height:36px;padding:0 16px;border:1px solid #d5d5de;border-radius:8px;background:#fff;color:#1c1c22;font-size:13px;cursor:pointer">复制诊断信息</button>',
        '</div>',
        '<pre id="__ds_ua" style="white-space:pre-wrap;word-break:break-all;background:#f4f4f7;border-radius:8px;padding:12px;font-size:11px;color:#5a5a68;margin:0"></pre>',
        '</div>'
      ].join('');
      (document.body || document.documentElement).appendChild(d);
      var info = 'URL: ' + location.href + '\nUA: ' + navigator.userAgent +
        '\nonLine: ' + navigator.onLine + '\nsize: ' + window.innerWidth + 'x' + window.innerHeight +
        '\ndpr: ' + window.devicePixelRatio;
      d.querySelector('#__ds_ua').textContent = info;
      d.querySelector('#__ds_rl').addEventListener('click', function () { location.reload(); });
      d.querySelector('#__ds_cp').addEventListener('click', function () {
        try { navigator.clipboard.writeText(info); } catch (e) {}
      });
    } catch (e) {}
  }
  setTimeout(bailout, 9000);

  mount();
  setInterval(function () {
    if (document.body && !document.getElementById('__dsondt_host')) document.body.appendChild(host);
  }, 2000);
})();
"##;

} // verus!
