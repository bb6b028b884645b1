//! The scripts the shell injects into its pages: the titlebar bundle, the
//! theme bridge of the content pages and their click forwarder.
use base64::Engine;
use vstd::prelude::*;
use crate::text::{chars_of, push_all, replace_all, replace_exec, string_of};

verus! {

/// The titlebar bundle; `__DSHD_ICON_URI__` stands for the icon.
pub const INJECT_JS_1: &'static str = r##"
(function () {
  if (window.__dshdInjected) return;
  window.__dshdInjected = true;
  var BAR_ID = '__dsh_desktop_chrome__';
  var BAR_HEIGHT = 36;
  // 区分主窗（DSH）与副窗（chat.deepseek.com）：副窗标题栏只保留「切换」等窗口按钮，不显示 DSH 品牌/后端状态
  var isDeepseek = /chat\.deepseek\.com/.test(location.hostname) || /deepseek\.com/.test(location.href);
  var APP_TITLE = isDeepseek ? 'DeepSeek 聊天' : 'DSH Desktop';
  var APP_BADGE = isDeepseek ? 'DeepSeek' : 'v1.9.0';

  var GLYPHS = {
    menu: '<svg width="12" height="12" viewBox="0 0 12 12" fill="currentColor"><circle cx="2.4" cy="6" r="1.15"/><circle cx="6" cy="6" r="1.15"/><circle cx="9.6" cy="6" r="1.15"/></svg>',
    min: '<svg width="12" height="12" viewBox="0 0 12 12" fill="none" stroke="currentColor" stroke-width="1.1" stroke-linecap="round"><path d="M2.5 6h7"/></svg>',
    max: '<svg width="12" height="12" viewBox="0 0 12 12" fill="none" stroke="currentColor" stroke-width="1.1"><rect x="2.6" y="2.6" width="6.8" height="6.8" rx="1.4"/></svg>',
    restore: '<svg width="12" height="12" viewBox="0 0 12 12" fill="none" stroke="currentColor" stroke-width="1.1"><path d="M4.2 4.2V2.6h5.2v5.2H7.8"/><rect x="2.6" y="4.2" width="5.2" height="5.2" rx="1.2"/></svg>',
    close: '<svg width="12" height="12" viewBox="0 0 12 12" fill="none" stroke="currentColor" stroke-width="1.2" stroke-linecap="round"><path d="M2.6 2.6l6.8 6.8M9.4 2.6l-6.8 6.8"/></svg>',
    toggle: '<svg width="12" height="12" viewBox="0 0 12 12" fill="none" stroke="currentColor" stroke-width="1.1" stroke-linecap="round"><path d="M2.5 4h6M7 2l2.2 2L7 6M9.5 8h-6M5 6l-2.2 2L5 10"/></svg>'
  };

  // ── EAC 的 CHROME_CSS（原样；--dsw-alias-* 为主题变量，自动贴合 dsh 皮肤）──
  var CHROME_CSS = [
    '#' + BAR_ID + '{position:fixed;top:0;left:0;right:0;height:' + BAR_HEIGHT + 'px;z-index:2147483000;',
    'display:flex;align-items:center;justify-content:space-between;padding:0 6px 0 10px;',
    '-webkit-app-region:drag;user-select:none;box-sizing:border-box;',
    'font-family:var(--dsw-font-family,"Segoe UI","Microsoft YaHei",system-ui,sans-serif);',
    'background:color-mix(in srgb,var(--dsw-alias-bg-base,#0b1220) 74%,transparent);',
    'backdrop-filter:blur(16px) saturate(1.5);-webkit-backdrop-filter:blur(16px) saturate(1.5);',
    'border-bottom:1px solid color-mix(in srgb,var(--dsw-alias-border-l1,rgba(255,255,255,.09)) 55%,transparent)}',
    '#' + BAR_ID + ' .dch-left{display:flex;align-items:center;gap:8px;min-width:0;-webkit-app-region:drag}',
"##;
pub const INJECT_JS_2: &'static str = r##"    '#' + BAR_ID + ' .dch-icon{width:20px;height:20px;border-radius:6px;display:block;flex:none;-webkit-app-region:drag;background:transparent;box-shadow:none}',
    '#' + BAR_ID + ' .dch-title{font-size:12.5px;font-weight:600;letter-spacing:.2px;line-height:16px;color:var(--dsw-alias-label-primary,#e6ecff);white-space:nowrap;-webkit-app-region:drag}',
    '#' + BAR_ID + ' .dch-badge{font-size:10px;line-height:14px;padding:1px 6px;border-radius:999px;color:var(--dsw-alias-label-tertiary,#93a5d8);border:1px solid var(--dsw-alias-border-l1,rgba(255,255,255,.09));white-space:nowrap;-webkit-app-region:drag;font-family:var(--ds-font-family-code,Consolas,monospace)}',
    // 状态徽标（比 EAC 多：后端状态显示）
    '#' + BAR_ID + ' .dch-status{display:inline-flex;align-items:center;gap:5px;font-size:10px;line-height:14px;padding:1px 8px;border-radius:999px;color:var(--dsw-alias-label-tertiary,#93a5d8);border:1px solid var(--dsw-alias-border-l1,rgba(255,255,255,.09));white-space:nowrap;-webkit-app-region:drag;font-family:var(--ds-font-family-code,Consolas,monospace)}',
    '#' + BAR_ID + ' .dch-status .dshd-dot{width:6px;height:6px;border-radius:50%;flex:none;background:#94a3b8}',
    '#' + BAR_ID + ' .dch-status .dshd-dot.ok{background:#22c55e;box-shadow:0 0 5px rgba(34,197,94,.8)}',
    '#' + BAR_ID + ' .dch-status .dshd-dot.warn{background:#eab308;box-shadow:0 0 5px rgba(234,179,8,.8)}',
    '#' + BAR_ID + ' .dch-status .dshd-dot.err{background:#ef4444;box-shadow:0 0 5px rgba(239,68,68,.8)}',
    '#' + BAR_ID + ' .dch-right{display:flex;align-items:center;gap:2px;-webkit-app-region:no-drag}',
    '#' + BAR_ID + ' .dch-btn{width:30px;height:28px;display:grid;place-items:center;border:none;border-radius:8px;background:transparent;color:var(--dsw-alias-label-secondary,#b8c5ea);cursor:pointer;padding:0;-webkit-app-region:no-drag;outline:none;transition:background .12s,color .12s}',
    '#' + BAR_ID + ' .dch-btn:hover{background:var(--dsw-alias-interactive-bg-hover,rgba(255,255,255,.09));color:var(--dsw-alias-label-primary,#eef2ff)}',
    '#' + BAR_ID + ' .dch-btn:active{background:var(--dsw-alias-interactive-bg-hover-solid,rgba(255,255,255,.14))}',
    '#' + BAR_ID + ' .dch-close:hover{background:#e81123;color:#fff}',
    '#' + BAR_ID + ' .dch-menu{position:fixed;top:' + (BAR_HEIGHT + 8) + 'px;right:8px;width:272px;z-index:2147483001;-webkit-app-region:no-drag;box-sizing:border-box;padding:6px;',
    'background:var(--dsw-alias-bg-layer-2,color-mix(in srgb,var(--dsw-alias-bg-base,#0b1220) 92%,white));',
    'border:1px solid var(--dsw-alias-border-l1,rgba(255,255,255,.1));border-radius:14px;',
    'box-shadow:0 12px 40px rgba(0,0,0,.5),0 2px 8px rgba(0,0,0,.35);',
    'backdrop-filter:blur(20px) saturate(1.5);-webkit-backdrop-filter:blur(20px) saturate(1.5);',
    'color:var(--dsw-alias-label-primary,#e6ecff);font-family:var(--dsw-font-family,"Segoe UI","Microsoft YaHei",system-ui,sans-serif)}',
    '#' + BAR_ID + ' .dch-mh{padding:8px 10px 10px;border-bottom:1px solid var(--dsw-alias-border-l2,rgba(255,255,255,.08));margin-bottom:6px}',
    '#' + BAR_ID + ' .dch-mh-title{font-size:13px;font-weight:600;display:flex;align-items:center;gap:6px}',
    '#' + BAR_ID + ' .dch-mh-sub{font-size:11px;color:var(--dsw-alias-label-tertiary,#8b9ac4);margin-top:3px;line-height:16px;display:flex;gap:8px;flex-wrap:wrap}',
    '#' + BAR_ID + ' .dch-item{display:flex;align-items:center;gap:8px;width:100%;min-height:30px;padding:5px 10px;border:none;border-radius:8px;background:transparent;color:var(--dsw-alias-label-primary,#dbe4f8);font:inherit;font-size:12.5px;line-height:18px;text-align:left;cursor:pointer;-webkit-app-region:no-drag}',
    '#' + BAR_ID + ' .dch-item:hover{background:var(--dsw-alias-interactive-bg-hover,rgba(255,255,255,.08))}',
    '#' + BAR_ID + ' .dch-item .dch-kbd{margin-left:auto;font-size:10.5px;color:var(--dsw-alias-label-caption,#5f6f9c);font-family:var(--ds-font-family-code,Consolas,monospace)}',
    '#' + BAR_ID + ' .dch-item[data-danger="1"]{color:var(--dsw-alias-state-error-primary,#ff7a85)}',
    '#' + BAR_ID + ' .dch-sep{height:1px;background:var(--dsw-alias-border-l2,rgba(255,255,255,.08));margin:5px 6px}',
    '#' + BAR_ID + ' .dch-switch{width:34px;height:18px;border-radius:999px;border:1px solid var(--dsw-alias-border-l1,rgba(255,255,255,.14));background:var(--dsw-alias-interactive-bg-hover,rgba(255,255,255,.16));position:relative;cursor:pointer;padding:0;flex:none;-webkit-app-region:no-drag;transition:background .15s,border-color .15s}',
    '#' + BAR_ID + ' .dch-switch::after{content:"";position:absolute;top:2px;left:2px;width:12px;height:12px;border-radius:50%;background:#dbe4f8;transition:transform .15s}',
"##;
pub const INJECT_JS_3: &'static str = r##"    '#' + BAR_ID + ' .dch-switch.on{background:#16a34a;border-color:rgba(34,197,94,.55)}',
    '#' + BAR_ID + ' .dch-switch.on::after{transform:translateX(16px);background:#fff}',
    '#' + BAR_ID + ' .dch-switch:hover{filter:brightness(1.12)}'
  ].join('');

  var menuEl = null, maxBtn = null, menuOpen = false;
  // ── 关闭选择框（Rust 拦截窗口关闭后调用 __dshdShowCloseDialog 弹出）──
  // 注意：弹窗挂在 document.body 下（不是标题栏 #BAR_ID 的后代），
  // 所以 CSS 必须用弹窗自己的 id 选择器，不能用 '#BAR_ID .xxx'（会失配导致裸文本）。
  var CLOSE_DLG_ID = '__dshd_close_overlay__';
  var closeDlgBuilt = false, closeDlgEl = null, closeDlgOpen = false;
  var CLOSE_DLG_CSS = [
    '#' + CLOSE_DLG_ID + '[hidden]{display:none!important}',
    '#' + CLOSE_DLG_ID + '{position:fixed;inset:0;z-index:2147483002;display:grid;place-items:center;',
    'background:rgba(3,7,16,.55);backdrop-filter:blur(5px);-webkit-backdrop-filter:blur(5px);-webkit-app-region:no-drag}',
    '#' + CLOSE_DLG_ID + ' .dch-close-box{width:390px;box-sizing:border-box;padding:18px 18px 14px;border-radius:16px;',
    'background:var(--dsw-alias-bg-layer-2,color-mix(in srgb,var(--dsw-alias-bg-base,#0b1220) 94%,white));',
    'border:1px solid var(--dsw-alias-border-l1,rgba(255,255,255,.12));',
    'box-shadow:0 18px 60px rgba(0,0,0,.55),0 2px 10px rgba(0,0,0,.4);',
    'font-family:var(--dsw-font-family,"Segoe UI","Microsoft YaHei",system-ui,sans-serif);color:var(--dsw-alias-label-primary,#e6ecff)}',
    '#' + CLOSE_DLG_ID + ' .dch-close-box h3{margin:0 0 6px;font-size:14px;font-weight:600;letter-spacing:.2px}',
    '#' + CLOSE_DLG_ID + ' .dch-close-box p{margin:0 0 16px;font-size:12px;line-height:19px;color:var(--dsw-alias-label-tertiary,#93a5d8)}',
    '#' + CLOSE_DLG_ID + ' .dch-close-actions{display:flex;gap:8px;justify-content:flex-end}',
    '#' + CLOSE_DLG_ID + ' .dch-close-actions button{flex:1;min-width:88px;padding:7px 10px;border-radius:9px;border:1px solid var(--dsw-alias-border-l1,rgba(255,255,255,.12));',
    'background:transparent;color:var(--dsw-alias-label-primary,#dbe4f8);font:inherit;font-size:12.5px;cursor:pointer;transition:background .12s}',
    '#' + CLOSE_DLG_ID + ' .dch-close-actions button:hover{background:var(--dsw-alias-interactive-bg-hover,rgba(255,255,255,.1))}',
    '#' + CLOSE_DLG_ID + ' .dch-close-actions .dch-quit{background:rgba(232,17,35,.14);border-color:rgba(232,17,35,.45);color:#ff7a85}',
    '#' + CLOSE_DLG_ID + ' .dch-close-actions .dch-quit:hover{background:rgba(232,17,35,.24)}'
  ].join('');
  function ensureCloseDlg() {
"##;
pub const INJECT_JS_4: &'static str = r##"    if (closeDlgBuilt) return;
    closeDlgBuilt = true;
    var style = document.createElement('style');
    style.textContent = CLOSE_DLG_CSS;
    document.head.appendChild(style);
    var box = document.createElement('div');
    box.id = CLOSE_DLG_ID;
    box.className = 'dch-overlay';
    box.hidden = true;
    box.innerHTML =
      '<div class="dch-close-box">' +
      '<h3>关闭 DSH Desktop</h3>' +
      '<p>选择关闭方式：缩小到托盘后应用仍在后台运行（后端不中断），可随时从托盘图标重新打开。</p>' +
      '<div class="dch-close-actions">' +
      '<button data-c="cancel">取消</button>' +
      '<button data-c="tray">缩小到托盘</button>' +
      '<button data-c="quit" class="dch-quit">退出</button>' +
      '</div></div>';
    box.querySelector('[data-c="cancel"]').addEventListener('click', hideCloseDlg);
    box.querySelector('[data-c="tray"]').addEventListener('click', function () { hideCloseDlg(); act('min-tray'); });
    box.querySelector('[data-c="quit"]').addEventListener('click', function () { hideCloseDlg(); act('quit'); });
    box.addEventListener('click', function (e) { if (e.target === box) hideCloseDlg(); });
    document.body.appendChild(box);
    closeDlgEl = box;
  }
  function hideCloseDlg() { closeDlgOpen = false; if (closeDlgEl) closeDlgEl.hidden = true; }
  // Rust 在拦截到关闭请求时调用；幂等：已弹出则不重复叠加
  window.__dshdShowCloseDialog = function () {
    if (closeDlgOpen) return;
    closeDlgOpen = true;
"##;
pub const INJECT_JS_5: &'static str = r##"    ensureCloseDlg();
    closeDlgEl.hidden = false;
  };

  // ── 下载管理面板（自管下载器 /downloads + download-* action）──
  var DLS_ID = '__dshd_downloads__';
  var dlPanelBuilt = false, dlPanelEl = null;
  // 右上角下拉卡片（类 Edge 下载浮层）：无全屏遮罩，标题栏下方右对齐
  var DLS_CSS = [
    '#' + DLS_ID + '[hidden]{display:none!important}',
    '#' + DLS_ID + '{position:fixed;top:44px;right:12px;width:400px;max-width:calc(100vw - 24px);z-index:2147483002;',
    '-webkit-app-region:no-drag;animation:dshdDlsIn .14s ease-out}',
    '@keyframes dshdDlsIn{from{opacity:0;transform:translateY(-6px)}to{opacity:1;transform:none}}',
    '#' + DLS_ID + ' .dch-dls-box{box-sizing:border-box;padding:12px 14px;border-radius:14px;',
    'background:var(--dsw-alias-bg-layer-2,color-mix(in srgb,var(--dsw-alias-bg-base,#0b1220) 96%,white));',
    'border:1px solid var(--dsw-alias-border-l1,rgba(255,255,255,.12));',
    'box-shadow:0 16px 48px rgba(0,0,0,.5),0 2px 10px rgba(0,0,0,.35);',
    'font-family:var(--dsw-font-family,"Segoe UI","Microsoft YaHei",system-ui,sans-serif);color:var(--dsw-alias-label-primary,#e6ecff)}',
    '#' + DLS_ID + ' .dch-dls-head{display:flex;align-items:center;justify-content:space-between;margin-bottom:8px}',
    '#' + DLS_ID + ' .dch-dls-head h3{margin:0;font-size:13px;font-weight:600;letter-spacing:.2px}',
    '#' + DLS_ID + ' .dch-dls-head .dch-dls-count{font-size:11px;color:var(--dsw-alias-label-tertiary,#93a5d8);margin-left:6px}',
    '#' + DLS_ID + ' .dch-dls-close{width:24px;height:24px;border:none;border-radius:7px;background:transparent;color:var(--dsw-alias-label-secondary,#b8c5ea);cursor:pointer;font-size:12px;line-height:1}',
    '#' + DLS_ID + ' .dch-dls-close:hover{background:var(--dsw-alias-interactive-bg-hover,rgba(255,255,255,.1))}',
    '#' + DLS_ID + ' .dch-dls-list{max-height:420px;overflow:auto;display:flex;flex-direction:column;gap:7px;scrollbar-width:thin}',
    '#' + DLS_ID + ' .dch-dls-empty{font-size:12px;color:var(--dsw-alias-label-tertiary,#93a5d8);padding:16px 0;text-align:center}',
    '#' + DLS_ID + ' .dch-dls-item{border:1px solid var(--dsw-alias-border-l1,rgba(255,255,255,.09));border-radius:10px;padding:9px 11px;background:rgba(255,255,255,.02)}',
    '#' + DLS_ID + ' .dch-dls-row1{display:flex;align-items:center;justify-content:space-between;gap:10px;margin-bottom:6px}',
    '#' + DLS_ID + ' .dch-dls-name{font-size:12px;font-weight:600;overflow:hidden;text-overflow:ellipsis;white-space:nowrap}',
    '#' + DLS_ID + ' .dch-dls-state{font-size:10.5px;flex:none;padding:1px 7px;border-radius:999px;border:1px solid var(--dsw-alias-border-l1,rgba(255,255,255,.1))}',
    '#' + DLS_ID + ' .dch-dls-state.ok{color:#22c55e;border-color:rgba(34,197,94,.4)}',
"##;
pub const INJECT_JS_6: &'static str = r##"    '#' + DLS_ID + ' .dch-dls-state.err{color:#ff7a85;border-color:rgba(232,17,35,.45)}',
    '#' + DLS_ID + ' .dch-dls-track{height:4px;border-radius:99px;background:rgba(255,255,255,.08);overflow:hidden;margin-bottom:6px}',
    '#' + DLS_ID + ' .dch-dls-fill{height:100%;width:0%;border-radius:99px;background:#3b82f6;transition:width .25s}',
    '#' + DLS_ID + ' .dch-dls-meta{font-size:10.5px;color:var(--dsw-alias-label-tertiary,#93a5d8);font-family:var(--ds-font-family-code,Consolas,monospace);overflow:hidden;text-overflow:ellipsis;white-space:nowrap}',
    '#' + DLS_ID + ' .dch-dls-actions{display:flex;gap:5px;justify-content:flex-end;margin-top:7px;flex-wrap:wrap}',
    '#' + DLS_ID + ' .dch-dls-actions button{min-width:56px;padding:3px 9px;border-radius:7px;border:1px solid var(--dsw-alias-border-l1,rgba(255,255,255,.12));background:transparent;color:var(--dsw-alias-label-primary,#dbe4f8);font:inherit;font-size:11px;cursor:pointer;transition:background .12s}',
    '#' + DLS_ID + ' .dch-dls-actions button:hover{background:var(--dsw-alias-interactive-bg-hover,rgba(255,255,255,.1))}',
    '#' + DLS_ID + ' .dch-dls-actions .dch-dls-cancel{color:#ff7a85;border-color:rgba(232,17,35,.4)}',
    '#' + DLS_ID + ' .dch-dls-actions .dch-dls-cancel:hover{background:rgba(232,17,35,.15)}',
    '#' + DLS_ID + ' .dch-dls-actions .dch-dls-del{color:#ff7a85;border-color:rgba(232,17,35,.4)}',
    '#' + DLS_ID + ' .dch-dls-actions .dch-dls-del:hover{background:rgba(232,17,35,.15)}'
  ].join('');
  var DLS_STATE_CN = { downloading: '下载中', paused: '已暂停', done: '完成', canceled: '已取消', error: '失败' };
  function fmtBytes(b) {
    if (b >= 1073741824) return (b / 1073741824).toFixed(2) + ' GB';
    if (b >= 1048576) return (b / 1048576).toFixed(1) + ' MB';
    if (b >= 1024) return (b / 1024).toFixed(1) + ' KB';
    return b + ' B';
  }
  function fmtPct(bytes, total) {
    if (!total || total <= 0) return '';
    return Math.min(100, Math.round(bytes / total * 100)) + '%';
  }
  function buildDlsPanel() {
    if (dlPanelBuilt) return;
    dlPanelBuilt = true;
    var style = document.createElement('style');
    style.textContent = DLS_CSS;
    document.head.appendChild(style);
    var box = document.createElement('div');
"##;
pub const INJECT_JS_7: &'static str = r##"    box.id = DLS_ID;
    box.hidden = true;
    box.innerHTML =
      '<div class="dch-dls-box">' +
      '<div class="dch-dls-head"><h3>下载管理<span class="dch-dls-count"></span></h3><button class="dch-dls-close" title="关闭" aria-label="关闭">✕</button></div>' +
      '<div class="dch-dls-list"></div>' +
      '</div>';
    box.querySelector('.dch-dls-close').addEventListener('click', hideDlsPanel);
    document.body.appendChild(box);
    dlPanelEl = box;
    // 点击面板外部：有未完成任务（下载中/暂停）时不关闭（Edge 下载浮层逻辑），否则关闭
    document.addEventListener('click', function (e) {
      if (dlPanelEl && !dlPanelEl.hidden && !dlPanelEl.contains(e.target) && !dlActive) {
        hideDlsPanel();
      }
    });
  }
  function renderDls(list) {
    var listEl = dlPanelEl.querySelector('.dch-dls-list');
    var countEl = dlPanelEl.querySelector('.dch-dls-count');
    if (!list || !list.length) {
      listEl.innerHTML = '<div class="dch-dls-empty">暂无下载任务</div>';
      if (countEl) countEl.textContent = '';
      return;
    }
    if (countEl) countEl.textContent = '(' + list.length + ')';
    listEl.innerHTML = list.map(function (t) {
      var stateCls = t.state === 'done' ? ' ok' : (t.state === 'error' || t.state === 'canceled' ? ' err' : '');
      var pct = fmtPct(t.bytes, t.total);
      var metaText = t.state === 'done'
"##;
pub const INJECT_JS_8: &'static str = r##"        ? fmtBytes(t.bytes) + ' · 已保存'
        : (pct ? pct + ' · ' + fmtBytes(t.bytes) + (t.total ? ' / ' + fmtBytes(t.total) : '') : fmtBytes(t.bytes));
      var btns = '';
      if (t.state === 'downloading') {
        btns += '<button data-dl="pause" data-id="' + t.id + '" data-on="1">暂停</button>';
        btns += '<button data-dl="browser" data-id="' + t.id + '">用浏览器下载</button>';
        btns += '<button data-dl="cancel" data-id="' + t.id + '" class="dch-dls-cancel">取消</button>';
      } else if (t.state === 'paused') {
        btns += '<button data-dl="pause" data-id="' + t.id + '" data-on="0">继续</button>';
        btns += '<button data-dl="cancel" data-id="' + t.id + '" class="dch-dls-cancel">取消</button>';
      } else if (t.state === 'done') {
        btns += '<button data-dl="open" data-id="' + t.id + '">打开文件夹</button>';
        btns += '<button data-dl="delete" data-id="' + t.id + '" class="dch-dls-del">删除</button>';
      } else {
        // canceled / error：可重试、转浏览器或删除
        btns += '<button data-dl="retry" data-id="' + t.id + '">重试</button>';
        btns += '<button data-dl="browser" data-id="' + t.id + '">用浏览器下载</button>';
        btns += '<button data-dl="delete" data-id="' + t.id + '" class="dch-dls-del">删除</button>';
      }
      return '<div class="dch-dls-item">' +
        '<div class="dch-dls-row1"><span class="dch-dls-name" title="' + t.file + '">' + t.name + '</span>' +
        '<span class="dch-dls-state' + stateCls + '">' + (DLS_STATE_CN[t.state] || t.state) + '</span></div>' +
        '<div class="dch-dls-track"><div class="dch-dls-fill" style="width:' + (pct || (t.state === 'done' ? '100' : '0')) + '"></div></div>' +
        '<div class="dch-dls-meta">' + metaText + (t.error ? ' · ' + t.error : '') + '</div>' +
        '<div class="dch-dls-actions">' + btns + '</div>' +
        '</div>';
    }).join('');
    listEl.querySelectorAll('[data-dl]').forEach(function (b) {
      b.addEventListener('click', function () {
        var op = b.getAttribute('data-dl');
"##;
pub const INJECT_JS_9: &'static str = r##"        var id = b.getAttribute('data-id');
        if (op === 'pause') actQ('download-pause', 'id=' + id + '&on=' + b.getAttribute('data-on'));
        else if (op === 'cancel') actQ('download-cancel', 'id=' + id);
        else if (op === 'open') actQ('download-open', 'id=' + id);
        else if (op === 'delete') actQ('download-delete', 'id=' + id);
        else if (op === 'retry') actQ('download-retry', 'id=' + id);
        else if (op === 'browser') actQ('download-browser', 'id=' + id);
      });
    });
  }
  // ── 下载轮询：常驻轻量轮询（1s）──
  // 1) 有进行中/暂停任务且面板未开 → 自动弹出（Edge 下载逻辑：下载开始即显示浮层）
  // 2) 面板开着 → 渲染最新列表
  // 3) 维护 dlActive（供“未完成任务时点击外部不关闭”）
  var dlActive = false;
  var dlDismissed = false, lastCount = 0;
  function pollDls() {
    fetch(HTTP + '/downloads').then(function (r) { return r.json(); })
      .then(function (list) {
        var active = list.some(function (t) { return t.state === 'downloading' || t.state === 'paused'; });
        dlActive = active;
        var count = list.length;
        if (active && !dlPanelEl) buildDlsPanel();
        // 自动弹出：未手动收起；或手动收起后出现了新任务（任务数增加）
        if (active && dlPanelEl && dlPanelEl.hidden && (!dlDismissed || count > lastCount)) {
          dlPanelEl.hidden = false;
          renderDls(list);
        } else if (dlPanelEl && !dlPanelEl.hidden) {
          renderDls(list);
        }
"##;
pub const INJECT_JS_10: &'static str = r##"        lastCount = count;
      })
      .catch(function () {});
  }
  setInterval(pollDls, 1000);
  function showDlsPanel() {
    buildDlsPanel();
    dlPanelEl.hidden = false;
    dlDismissed = false;
    pollDls();
  }
  function hideDlsPanel() {
    if (dlPanelEl) dlPanelEl.hidden = true;
    dlDismissed = true;
  }
  window.__dshdShowDownloads = showDlsPanel;

  var HTTP = 'http://127.0.0.1:19431';
  // 外部页面按钮：标准 HTTP img 请求到本地控制服务（WebView2 必达 Rust）
  function act(a) { new Image().src = HTTP + '/action?name=' + encodeURIComponent(a); }
  // 带参数的 action（下载管理用）：actQ('download-cancel', 'id=3')
  function actQ(a, q) { new Image().src = HTTP + '/action?name=' + encodeURIComponent(a) + '&' + q; }
  function logWeb(m) { try { new Image().src = HTTP + '/log?msg=' + encodeURIComponent(m); } catch (e) {} }
  function setMaximized(isMax) {
    if (!maxBtn) return;
    maxBtn.innerHTML = isMax ? GLYPHS.restore : GLYPHS.max;
    maxBtn.title = isMax ? '还原' : '最大化';
  }
  function closeMenu() {
    menuOpen = false;
"##;
pub const INJECT_JS_11: &'static str = r##"    if (menuEl) menuEl.hidden = true;
    // 菜单关闭：若在 DeepSeek 内容页，恢复显示（菜单打开期间被临时隐藏以免被盖住）
    act('ds-menu-close');
  }
  function renderMenu() {
    if (!menuEl) return;
    var sw = document.querySelector('[data-act="toggle-deepseek"]');
    var swOn = sw ? sw.classList.contains('on') : false;
    menuEl.innerHTML = [
      '<div class="dch-mh"><div class="dch-mh-title">' + APP_TITLE + (isDeepseek ? '' : ' <span style="font-weight:400;color:var(--dsw-alias-label-tertiary)">封装 v1.9.0</span>') + '</div>',
      (isDeepseek ? '</div>' : '<div class="dch-mh-sub"><span>后端状态：<span id="dshd-menu-status">连接中…</span></span></div></div>'),
      '<button class="dch-item" data-act="restart"><span>重启 Web 服务</span><span class="dch-kbd">重启后端</span></button>',
      '<button class="dch-item" data-act="reload"><span>重新加载</span><span class="dch-kbd">刷新页面</span></button>',
      '<button class="dch-item" data-act="toggle-deepseek"><span>' + (swOn ? '切回 DeepSeek Harness' : '切换 DeepSeek 聊天页') + '</span><span class="dch-kbd">DeepSeek</span></button>',
      '<button class="dch-item" data-act="downloads"><span>下载管理</span><span class="dch-kbd">导出文件</span></button>',
      '<div class="dch-sep"></div>',
      '<button class="dch-item" data-act="browser">在浏览器中打开</button>',
      '<div class="dch-sep"></div>',
      '<button class="dch-item" data-act="about">关于 ' + APP_TITLE + '</button>',
      '<button class="dch-item" data-danger="1" data-act="quit">退出</button>'
    ].join('');
    menuEl.querySelectorAll('.dch-item').forEach(function (item) {
      item.addEventListener('click', function () {
        var actName = item.getAttribute('data-act');
        closeMenu();
        // 下载管理 = 直接开面板（不经过 HTTP action）；退出 = 直接退出（不弹窗）
        if (actName === 'downloads') { window.__dshdShowDownloads(); return; }
        act(actName);
      });
    });
"##;
pub const INJECT_JS_12: &'static str = r##"  }
  function openMenu() {
    if (!menuEl) return;
    // 菜单打开：若在 DeepSeek 内容页，先让 Rust 临时隐藏子 WebView，否则下拉菜单被盖住
    act('ds-menu-open');
    renderMenu();
    menuOpen = true;
    menuEl.hidden = false;
    // 菜单重建后：先用缓存状态填充菜单状态行，再拉一次最新状态刷新
    if (window.__lastDshdStatus) window.__dshdStatus(window.__lastDshdStatus);
    fetch(HTTP + '/status').then(function (r) { return r.json(); })
      .then(function (s) { window.__dshdStatus(s); }).catch(function () {});
  }

  function injectChrome() {
    if (document.getElementById(BAR_ID)) return;
    var style = document.createElement('style');
    style.textContent = CHROME_CSS;
    document.head.appendChild(style);

    // 向页面声明自绘标题栏高度（EAC 契约；客户端插件据此刻意避让）
    document.documentElement.setAttribute('data-dsh-title-bar-height', String(BAR_HEIGHT));
    // 内容整体下移，避免遮挡
    var layout = document.createElement('style');
    layout.textContent = 'body{box-sizing:border-box!important;padding-top:' + BAR_HEIGHT + 'px!important}';
    document.head.appendChild(layout);

    var bar = document.createElement('div');
    bar.id = BAR_ID;
    bar.innerHTML =
"##;
pub const INJECT_JS_13: &'static str = r##"      '<div class="dch-left">' +
      '<img class="dch-icon" alt="" draggable="false" src="__DSHD_ICON_URI__" />' +
      '<span class="dch-title">' + APP_TITLE + '</span>' +
      (isDeepseek ? '<span class="dch-badge">DeepSeek</span>' : '<span class="dch-badge">v1.9.0</span>' + '<span class="dch-status"><span class="dshd-dot warn" id="dshd-dot"></span><span id="dshd-status-label">连接中…</span></span>') +
      '</div>' +
      '<div class="dch-right">' +
      '<button class="dch-switch" data-act="toggle-deepseek" title="切换到 DeepSeek 聊天页" aria-label="切换页面"></button>' +
      '<button class="dch-btn" data-act="menu" title="菜单" aria-label="菜单">' + GLYPHS.menu + '</button>' +
      '<button class="dch-btn" data-act="min" title="最小化" aria-label="最小化">' + GLYPHS.min + '</button>' +
      '<button class="dch-btn" data-act="max" title="最大化" aria-label="最大化">' + GLYPHS.max + '</button>' +
      '<button class="dch-btn dch-close" data-act="close" title="关闭" aria-label="关闭">' + GLYPHS.close + '</button>' +
      '</div>' +
      '<div class="dch-menu" hidden></div>';
    document.body.appendChild(bar);

    maxBtn = bar.querySelector('[data-act="max"]');
    menuEl = bar.querySelector('.dch-menu');

    bar.querySelector('[data-act="min"]').addEventListener('click', function () { act('min'); });
    bar.querySelector('[data-act="max"]').addEventListener('click', function () { act('max'); });
    bar.querySelector('[data-act="toggle-deepseek"]').addEventListener('click', function () {
      // 拨片：点击 → 通知 Rust 切换内容页 + 本地翻转开关态/提示文案
      var nextOn = !this.classList.contains('on');
      act('toggle-deepseek');
      this.classList.toggle('on', nextOn);
      this.title = nextOn ? '切回 DeepSeek Harness' : '切换到 DeepSeek 聊天页';
    });
    bar.querySelector('.dch-close').addEventListener('click', function () {
      // ✕ 直接弹「退出 / 缩小到托盘」选择框；
      // 不能走 act('close')→win.close()：程序化 close 不触发 CloseRequested，
"##;
pub const INJECT_JS_14: &'static str = r##"      // Rust 的拦截弹窗会被绕过（窗口直接关闭、应用退出、后端成孤儿）。
      window.__dshdShowCloseDialog();
    });
    bar.querySelector('[data-act="menu"]').addEventListener('click', function (e) { e.stopPropagation(); if (menuOpen) closeMenu(); else openMenu(); });
    // Tauri 不支持 -webkit-app-region：整栏拖动走 dshd://drag（Rust start_dragging）
    bar.addEventListener('mousedown', function (e) {
      if (e.target.closest('button') || e.target.closest('.dch-menu')) return;
      if (e.button !== 0) return;
      act('drag');
    });
    document.addEventListener('click', function (e) { if (menuOpen && !bar.contains(e.target)) closeMenu(); });
    document.addEventListener('keydown', function (e) {
      if (e.key === 'Escape') { hideCloseDlg(); hideDlsPanel(); closeMenu(); }
    });
    // 启动自检：探测 remote IPC 通道是否可用（Rust 侧会打日志）
    act('ping');
  }

  window.__dshdStatus = function (s) {
    window.__lastDshdStatus = s;
    var dot = document.getElementById('dshd-dot');
    var label = document.getElementById('dshd-status-label');
    var mlabel = document.getElementById('dshd-menu-status');
    var cls = 'warn', text = '后端未就绪';
    switch (s.state) {
      case 'running': case 'external':
        cls = 'ok';
        text = '运行中 · 端口 ' + (s.port || '?') + (s.state === 'external' ? '（外部实例）' : '');
        break;
      case 'starting':
"##;
pub const INJECT_JS_15: &'static str = r##"        cls = 'warn'; text = s.install ? '自动安装中…' : '启动中…';
        break;
      case 'restarting': cls = 'warn'; text = '重启中…'; break;
      case 'error':
        cls = 'err'; text = s.next_retry_sec ? '异常 · ' + s.next_retry_sec + 's 后重试' : '异常';
        break;
      case 'stopped': cls = 'warn'; text = '已停止'; break;
    }
    if (!dot || !label) return;
    dot.className = 'dshd-dot ' + cls;
    label.textContent = text;
    if (mlabel) mlabel.textContent = text;
  };

  if (document.readyState === 'loading') document.addEventListener('DOMContentLoaded', injectChrome);
  else injectChrome();
  // 初始状态：fetch 本地控制服务（CORS）；状态变化由 Rust eval 实时推送
  logWeb('inject loaded, url=' + location.href);
  fetch(HTTP + '/status').then(function (r) { return r.json(); })
    .then(function (s) { window.__dshdStatus(s); }).catch(function () {});
  act('ping');
})();
"##;

/// The theme bridge; `__SRC__` stands for the reporting page.
pub const THEME_BRIDGE_JS_1: &'static str = r##"(function () {
  if (window.__dshdThemeBridge) return;
  window.__dshdThemeBridge = true;
  var last = '';
  function read() {
    try {
      var el = null, i;
      var cand = [document.documentElement, document.body];
      for (i = 0; i < cand.length; i++) {
        if (!cand[i]) continue;
        var cs = getComputedStyle(cand[i]);
        var b = cs.backgroundColor;
        if (b && b !== 'rgba(0, 0, 0, 0)' && b !== 'transparent') { el = cand[i]; break; }
      }
      // 官方默认皮肤下 html/body 背景透明（底色由 #root / AppFrame 等面板绘制），
      // 继续向下采样真实渲染色，避免落到硬编码回退值把标题栏带黑。
      if (!el) {
        var deep = [document.querySelector('[data-dsh-frame]'), document.querySelector('#root'), document.querySelector('[data-dsh-app]')];
        for (i = 0; i < deep.length; i++) {
          if (!deep[i]) continue;
          var dcs = getComputedStyle(deep[i]);
          var db = dcs.backgroundColor;
          if (db && db !== 'rgba(0, 0, 0, 0)' && db !== 'transparent') { el = deep[i]; break; }
        }
      }
      var bg = el ? getComputedStyle(el).backgroundColor : '';
      // 暗色判定：dsh 页有 data-ds-dark-theme（无属性 = 亮色）；DeepSeek 页兜底跟系统主题
      var dark = false;
      if (document.body && document.body.hasAttribute('data-ds-dark-theme')) dark = true;
      else if ('__SRC__' !== 'dsh') {
"##;
pub const THEME_BRIDGE_JS_2: &'static str = r##"        dark = !!(window.matchMedia && window.matchMedia('(prefers-color-scheme: dark)').matches);
      }
      if (!bg) bg = dark ? '#0b1220' : '#ffffff';
      // 前景色按背景亮度推导，不取页面 body 的 color：外部页（如 chat.deepseek.com）
      // 的 body color 可能是链接紫等与标题栏无关的值，直接套用会让标题栏文字失调。
      var m = bg.match(/(\d+)\s*,\s*(\d+)\s*,\s*(\d+)/);
      var lum = m ? (0.299 * +m[1] + 0.587 * +m[2] + 0.114 * +m[3]) : (dark ? 0 : 255);
      var fg = lum < 140 ? 'rgb(230, 236, 255)' : 'rgb(20, 28, 48)';
      return JSON.stringify({ bg: bg, fg: fg });
    } catch (e) { return ''; }
  }
  function send() {
    var v = read();
    if (!v || v === last) return; // 值没变不重复上报
    last = v;
    new Image().src = 'http://127.0.0.1:19431/set-theme?src=__SRC__&t=' + encodeURIComponent(v);
  }
  send();
  window.addEventListener('load', send);
  function startObs() {
    var mo = new MutationObserver(send);
    mo.observe(document.documentElement, { attributes: true, attributeFilter: ['class', 'style', 'data-theme'] });
    try {
      if (document.body) mo.observe(document.body, { attributes: true, attributeFilter: ['class', 'style', 'data-theme', 'data-ds-dark-theme'] });
    } catch (e) {}
  }
  if (document.readyState === 'loading') document.addEventListener('DOMContentLoaded', startObs);
  else startObs();
  setInterval(send, 1000);
})();"##;

/// The click forwarder of the dsh page.
pub const CLICK_FORWARDER_JS: &'static str = r##"(function () {
  if (window.__dshdClickProxy) return;
  window.__dshdClickProxy = true;
  document.addEventListener('mousedown', function (e) {
    if (e.button !== 0) return;
    try { new Image().src = 'http://127.0.0.1:19431/action?name=main-click'; } catch (err) {}
  }, true);
})();"##;

/// The titlebar bundle's text.
pub open spec fn inject_template() -> Seq<char> {
    INJECT_JS_1@ + INJECT_JS_2@ + INJECT_JS_3@ + INJECT_JS_4@ + INJECT_JS_5@ + INJECT_JS_6@ + INJECT_JS_7@ + INJECT_JS_8@ + INJECT_JS_9@ + INJECT_JS_10@ + INJECT_JS_11@ + INJECT_JS_12@ + INJECT_JS_13@ + INJECT_JS_14@ + INJECT_JS_15@
}

/// The theme bridge's text.
pub open spec fn bridge_template() -> Seq<char> {
    THEME_BRIDGE_JS_1@ + THEME_BRIDGE_JS_2@
}

fn template(parts: &[&str]) -> (r: Vec<char>)
    ensures
        r@ == parts@.fold_left(Seq::<char>::empty(), |acc: Seq<char>, p: &str| acc + p@),
{
    let mut out: Vec<char> = Vec::new();
    let mut i: usize = 0;
    while i < parts.len()
        invariant
            i <= parts@.len(),
            out@ == parts@.take(i as int).fold_left(Seq::<char>::empty(), |acc: Seq<char>, p: &str| acc + p@),
        decreases parts@.len() - i,
    {
        push_all(&mut out, &chars_of(parts[i]));
        proof {
            let f = |acc: Seq<char>, p: &str| acc + p@;
            assert(parts@.take(i + 1).drop_last() =~= parts@.take(i as int));
        }
        i = i + 1;
    }
    assert(parts@.take(i as int) =~= parts@);
    out
}

/// The character for a six-bit value in the standard base64 alphabet.
pub open spec fn b64_char(v: int) -> char {
    if v < 26 {
        ((65 + v) as u8) as char
    } else if v < 52 {
        ((97 + v - 26) as u8) as char
    } else if v < 62 {
        ((48 + v - 52) as u8) as char
    } else if v == 62 {
        '+'
    } else {
        '/'
    }
}

/// Standard base64 with padding (RFC 4648): each group of three bytes becomes
/// four characters, six bits each, first bits first; a last group of one or
/// two bytes is completed with zero bits and padded with `=`.
pub open spec fn base64_standard(b: Seq<u8>) -> Seq<char>
    decreases b.len(),
{
    let x: int = if b.len() > 0 { b[0] as int } else { 0 };
    let y: int = if b.len() > 1 { b[1] as int } else { 0 };
    let z: int = if b.len() > 2 { b[2] as int } else { 0 };
    if b.len() == 0 {
        Seq::empty()
    } else if b.len() == 1 {
        seq![b64_char(x / 4), b64_char((x % 4) * 16), '=', '=']
    } else if b.len() == 2 {
        seq![b64_char(x / 4), b64_char((x % 4) * 16 + y / 16), b64_char((y % 16) * 4), '=']
    } else {
        seq![b64_char(x / 4), b64_char((x % 4) * 16 + y / 16), b64_char((y % 16) * 4 + z / 64), b64_char(z % 64)]
            + base64_standard(b.skip(3))
    }
}

/// `base64::engine::general_purpose::STANDARD.encode`: standard base64 with
/// padding (`base64_standard`), four characters per started group of three bytes.
#[verifier::external_body]
fn base64_encode(bytes: &[u8]) -> (r: String)
    ensures
        r@ == base64_standard(bytes@),
        r@.len() == 4 * ((bytes@.len() + 2) / 3),
{
    base64::engine::general_purpose::STANDARD.encode(bytes)
}

/// The icon as a `data:` URI.
pub open spec fn icon_uri(png: Seq<u8>) -> Seq<char> {
    "data:image/png;base64,"@ + base64_standard(png)
}

/// The titlebar bundle with the icon `png` inlined.
pub fn inject_js(png: &[u8]) -> (r: String)
    ensures
        r@ == replace_all(inject_template(), "__DSHD_ICON_URI__"@, icon_uri(png@)),
{
    let mut uri = chars_of("data:image/png;base64,");
    push_all(&mut uri, &chars_of(base64_encode(png).as_str()));
    let pat = chars_of("__DSHD_ICON_URI__");
    proof {
        reveal_strlit("__DSHD_ICON_URI__");
    }
    let parts: [&str; 15] = [INJECT_JS_1, INJECT_JS_2, INJECT_JS_3, INJECT_JS_4, INJECT_JS_5, INJECT_JS_6, INJECT_JS_7, INJECT_JS_8, INJECT_JS_9, INJECT_JS_10, INJECT_JS_11, INJECT_JS_12, INJECT_JS_13, INJECT_JS_14, INJECT_JS_15];
    let t = template(&parts);
    assert(parts@ =~= seq![INJECT_JS_1, INJECT_JS_2, INJECT_JS_3, INJECT_JS_4, INJECT_JS_5, INJECT_JS_6, INJECT_JS_7, INJECT_JS_8, INJECT_JS_9, INJECT_JS_10, INJECT_JS_11, INJECT_JS_12, INJECT_JS_13, INJECT_JS_14, INJECT_JS_15]);
    assert(t@ =~= inject_template()) by {
        reveal_with_fuel(Seq::fold_left, 16);
    }
    string_of(&replace_exec(&t, &pat, &uri))
}

/// The theme bridge for page `src` (`dsh` or `deepseek`).
pub fn theme_bridge_js(src: &str) -> (r: String)
    ensures
        r@ == replace_all(bridge_template(), "__SRC__"@, src@),
{
    let pat = chars_of("__SRC__");
    proof {
        reveal_strlit("__SRC__");
    }
    let parts: [&str; 2] = [THEME_BRIDGE_JS_1, THEME_BRIDGE_JS_2];
    let t = template(&parts);
    assert(parts@ =~= seq![THEME_BRIDGE_JS_1, THEME_BRIDGE_JS_2]);
    assert(t@ =~= bridge_template()) by {
        reveal_with_fuel(Seq::fold_left, 3);
    }
    string_of(&replace_exec(&t, &pat, &chars_of(src)))
}

/// The click forwarder of the dsh page.
pub fn click_forwarder_js() -> (r: String)
    ensures
        r@ == CLICK_FORWARDER_JS@,
{
    string_of(&chars_of(CLICK_FORWARDER_JS))
}

} // verus!
