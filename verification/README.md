# mojentic

An LLM integration toolkit whose decisions are verified with Verus.

## Layout

- `src/` — the verified library. Each module states its behaviour in
  `requires`/`ensures` contracts over mathematical models (`Seq`, `Map`,
  views), and Verus proves the code against them:
  - `task_list`, `task_tools` — an ordered task list with fresh identifiers
    and forward-only status changes, and the task-manager tools' reports;
  - `chat_session` — a conversation history kept within a token budget,
    the system prompt first;
  - `model_registry`, `openai_params` — model capabilities by name or
    pattern, and the request parameters chosen from them;
  - `models`, `openai_adapter`, `ollama` — messages and their provider forms;
  - `line_buffer`, `stream_assembly`, `stream_events` — newline framing of a
    byte stream, tool calls gathered from streamed fragments, and the
    single-turn event driver that ends every stream with exactly one
    terminal event;
  - `broker` — which tool call runs next, the limit on tool rounds, and the
    follow-up conversation;
  - `realtime_config`, `realtime_session`, `realtime_gateway`,
    `realtime_events`, `tool_runner`, `codec` — the decisions of a realtime
    voice session, tool batches and their order, and PCM16/base64 audio;
  - `lexical_path`, `file_tools` — the file tools' sandbox: paths resolved
    lexically (`.` and `..`) before they are held to the base directory;
  - `tokenizer`, `web_search`, `date_tool`, `user_tools`, `router`,
    `null_tracer`, `text` — the tools' own text handling.
  Calls into outside crates (tiktoken-rs, base64, urlencoding, serde_json,
  scraper, regex, std's path and UTF-8 functions) go through small trusted
  wrappers whose contracts name what the call returns.
- `app/` — ordinary Rust around the library: HTTP and WebSocket I/O, the
  terminal, the clock, the file system, async plumbing, serde shapes,
  tracing, and what works on floating point.
- `tests/` — tests of the library, run against the compiled crate.
