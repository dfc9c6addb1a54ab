client<llm> OpenRouter {
  provider "openai-generic"
  options {
    base_url "https://openrouter.ai/api/v1"
    model "openai/gpt-4o-mini"
    api_key env.OPENROUTER_API_KEY
  }
}

function SimpleGreeting(name: string) -> string {
  client OpenRouter
  prompt #"
    Write a one-sentence friendly greeting for {{ name }}.
  "#
}

generator target {
  output_type "typescript"
  output_dir "../"
  version "0.76.2"
}
